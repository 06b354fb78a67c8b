//! The daemon's events, and their projection onto the kinds that the main machine
//! knows.
use vstd::prelude::*;

use crate::fsm::EventKind;
use crate::power::Percent;

verus! {

/// Something that happened.
#[derive(Debug)]
pub enum Event {
    /// The lid closed (`true`) or opened.
    Lid(bool),
    /// A monitor was added or removed.
    MonitorHotplug { added: bool, name: String },
    /// The compositor reloaded its configuration.
    ConfigReloaded,
    /// The set of monitors changed and has settled.
    MonitorsChanged,
    /// The profile sources changed.
    ProfilesChanged,
    /// An inhibitor appeared or went away.
    Inhibitor { wayland: bool, active: bool },
    /// The session was locked (`true`) or unlocked.
    LockChanged(bool),
    /// The charger was plugged in (`true`) or pulled; raw, not debounced.
    AcChanged(bool),
    /// The charger has stopped bouncing.
    PowerAcSettled,
    /// The grace timer fired.
    TimerExpired,
    /// The machine woke up.
    Resumed,
    /// The reconciler looked at the world.
    ReconcileTick(ReconcileSnapshot),
    /// The `platform_profile` changed; the payload is its first word.
    PlatformProfileChanged(Option<String>),
    /// The GPU override file changed.
    GpuOverrideChanged(Option<String>),
    /// A battery percentage was sampled.
    BatteryPercent(Percent),
    /// The power override file changed; the payload is its first word.
    PowerOverrideChanged(Option<String>),
    /// The power service appeared on the bus.
    PowerdAppeared,
    /// The suspend request file appeared (its first word) or went away.
    SuspendRequestChanged(Option<String>),
}

/// What one pass of the reconciler gathered. `None`: that source failed, and the
/// context keeps what it has.
#[derive(Debug, Clone, Copy)]
pub struct ReconcileSnapshot {
    pub lid_closed: bool,
    pub ext_mon_count: u32,
    pub logind_inhibitor: bool,
    pub wayland_inhibitor: bool,
    pub locked: Option<bool>,
    pub on_ac: Option<bool>,
    pub edp_disabled: Option<bool>,
    /// Some enabled output is dark.
    pub dpms_off: Option<bool>,
    /// Sampled only while something is dark.
    pub cursor_pos: Option<(i64, i64)>,
}

impl Default for ReconcileSnapshot {
    fn default() -> (r: Self)
        ensures
            r == (ReconcileSnapshot {
                lid_closed: false,
                ext_mon_count: 0,
                logind_inhibitor: false,
                wayland_inhibitor: false,
                locked: None,
                on_ac: None,
                edp_disabled: None,
                dpms_off: None,
                cursor_pos: None,
            }),
    {
        ReconcileSnapshot {
            lid_closed: false,
            ext_mon_count: 0,
            logind_inhibitor: false,
            wayland_inhibitor: false,
            locked: None,
            on_ac: None,
            edp_disabled: None,
            dpms_off: None,
            cursor_pos: None,
        }
    }
}

/// The label of a kind in logs.
pub open spec fn kind_label(k: EventKind) -> Seq<char> {
    match k {
        EventKind::LidClose => "LidClose"@,
        EventKind::LidOpen => "LidOpen"@,
        EventKind::MonitorAdded => "MonitorAdded"@,
        EventKind::MonitorRemoved => "MonitorRemoved"@,
        EventKind::InhibitorOn => "InhibitorOn"@,
        EventKind::InhibitorOff => "InhibitorOff"@,
        EventKind::LockEngaged => "LockEngaged"@,
        EventKind::LockReleased => "LockReleased"@,
        EventKind::AcPlugged => "AcPlugged"@,
        EventKind::AcUnplugged => "AcUnplugged"@,
        EventKind::TimerExpired => "TimerExpired"@,
        EventKind::Resumed => "Resumed"@,
        EventKind::Reconcile => "Reconcile"@,
        EventKind::MonitorsChanged => "MonitorsChanged"@,
        EventKind::CtxRepaired => "CtxRepaired"@,
        EventKind::PlatformProfileChanged => "PlatformProfileChanged"@,
        EventKind::GpuOverrideChanged => "GpuOverrideChanged"@,
        EventKind::BatteryLowChanged => "BatteryLowChanged"@,
        EventKind::PowerOverrideChanged => "PowerOverrideChanged"@,
        EventKind::PowerAcSettled => "PowerAcSettled"@,
        EventKind::ProfilesChanged => "ProfilesChanged"@,
        EventKind::SuspendRequestChanged => "SuspendRequestChanged"@,
    }
}

/// The label of a kind in logs.
pub fn label_of(k: EventKind) -> (r: &'static str)
    ensures
        r@ == kind_label(k),
{
    match k {
        EventKind::LidClose => "LidClose",
        EventKind::LidOpen => "LidOpen",
        EventKind::MonitorAdded => "MonitorAdded",
        EventKind::MonitorRemoved => "MonitorRemoved",
        EventKind::InhibitorOn => "InhibitorOn",
        EventKind::InhibitorOff => "InhibitorOff",
        EventKind::LockEngaged => "LockEngaged",
        EventKind::LockReleased => "LockReleased",
        EventKind::AcPlugged => "AcPlugged",
        EventKind::AcUnplugged => "AcUnplugged",
        EventKind::TimerExpired => "TimerExpired",
        EventKind::Resumed => "Resumed",
        EventKind::Reconcile => "Reconcile",
        EventKind::MonitorsChanged => "MonitorsChanged",
        EventKind::CtxRepaired => "CtxRepaired",
        EventKind::PlatformProfileChanged => "PlatformProfileChanged",
        EventKind::GpuOverrideChanged => "GpuOverrideChanged",
        EventKind::BatteryLowChanged => "BatteryLowChanged",
        EventKind::PowerOverrideChanged => "PowerOverrideChanged",
        EventKind::PowerAcSettled => "PowerAcSettled",
        EventKind::ProfilesChanged => "ProfilesChanged",
        EventKind::SuspendRequestChanged => "SuspendRequestChanged",
    }
}

impl Event {
    /// The kind that the main machine knows the event by. A power service that
    /// appears counts as a settled charger: power policy has to look again.
    pub open spec fn as_kind(self) -> EventKind {
        match self {
            Event::Lid(closed) => if closed {
                EventKind::LidClose
            } else {
                EventKind::LidOpen
            },
            Event::MonitorHotplug { added, .. } => if added {
                EventKind::MonitorAdded
            } else {
                EventKind::MonitorRemoved
            },
            Event::ConfigReloaded => EventKind::Reconcile,
            Event::MonitorsChanged => EventKind::MonitorsChanged,
            Event::ProfilesChanged => EventKind::ProfilesChanged,
            Event::Inhibitor { active, .. } => if active {
                EventKind::InhibitorOn
            } else {
                EventKind::InhibitorOff
            },
            Event::LockChanged(locked) => if locked {
                EventKind::LockEngaged
            } else {
                EventKind::LockReleased
            },
            Event::AcChanged(on_ac) => if on_ac {
                EventKind::AcPlugged
            } else {
                EventKind::AcUnplugged
            },
            Event::PowerAcSettled => EventKind::PowerAcSettled,
            Event::TimerExpired => EventKind::TimerExpired,
            Event::Resumed => EventKind::Resumed,
            Event::ReconcileTick(_) => EventKind::CtxRepaired,
            Event::PlatformProfileChanged(_) => EventKind::PlatformProfileChanged,
            Event::GpuOverrideChanged(_) => EventKind::GpuOverrideChanged,
            Event::BatteryPercent(_) => EventKind::BatteryLowChanged,
            Event::PowerOverrideChanged(_) => EventKind::PowerOverrideChanged,
            Event::PowerdAppeared => EventKind::PowerAcSettled,
            Event::SuspendRequestChanged(_) => EventKind::SuspendRequestChanged,
        }
    }

    /// The kind that the main machine knows the event by.
    pub fn kind(&self) -> (r: EventKind)
        ensures
            r == self.as_kind(),
    {
        match self {
            Event::Lid(closed) => if *closed {
                EventKind::LidClose
            } else {
                EventKind::LidOpen
            },
            Event::MonitorHotplug { added, .. } => if *added {
                EventKind::MonitorAdded
            } else {
                EventKind::MonitorRemoved
            },
            Event::ConfigReloaded => EventKind::Reconcile,
            Event::MonitorsChanged => EventKind::MonitorsChanged,
            Event::ProfilesChanged => EventKind::ProfilesChanged,
            Event::Inhibitor { active, .. } => if *active {
                EventKind::InhibitorOn
            } else {
                EventKind::InhibitorOff
            },
            Event::LockChanged(locked) => if *locked {
                EventKind::LockEngaged
            } else {
                EventKind::LockReleased
            },
            Event::AcChanged(on_ac) => if *on_ac {
                EventKind::AcPlugged
            } else {
                EventKind::AcUnplugged
            },
            Event::PowerAcSettled => EventKind::PowerAcSettled,
            Event::TimerExpired => EventKind::TimerExpired,
            Event::Resumed => EventKind::Resumed,
            Event::ReconcileTick(_) => EventKind::CtxRepaired,
            Event::PlatformProfileChanged(_) => EventKind::PlatformProfileChanged,
            Event::GpuOverrideChanged(_) => EventKind::GpuOverrideChanged,
            Event::BatteryPercent(_) => EventKind::BatteryLowChanged,
            Event::PowerOverrideChanged(_) => EventKind::PowerOverrideChanged,
            Event::PowerdAppeared => EventKind::PowerAcSettled,
            Event::SuspendRequestChanged(_) => EventKind::SuspendRequestChanged,
        }
    }

    /// The label of the event in logs.
    pub fn label(&self) -> (r: &'static str)
        ensures
            r@ == kind_label(self.as_kind()),
    {
        label_of(self.kind())
    }
}

} // verus!
