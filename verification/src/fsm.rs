//! The lid/suspend state machine and the stuck-DPMS backstop.
//!
//! Everything here is a total function of plain inputs; the daemon snapshots its
//! context into [`WorldInputs`] and [`StuckScreenInputs`] when it dispatches an
//! event. Nothing in this machine turns a screen off: blanking belongs to the
//! idle daemon.
use vstd::prelude::*;

verus! {

/// States of the main machine.
#[derive(Debug, Clone, Copy, PartialEq, Eq, Structural)]
pub enum State {
    LidOpen,
    Docked,
    Deferred,
    Countdown,
    Suspending,
}

impl State {
    /// The label of a state in logs.
    pub open spec fn label(self) -> Seq<char> {
        match self {
            State::LidOpen => "LID_OPEN"@,
            State::Docked => "DOCKED"@,
            State::Deferred => "DEFERRED"@,
            State::Countdown => "COUNTDOWN"@,
            State::Suspending => "SUSPENDING"@,
        }
    }

    /// The label of a state in logs.
    pub fn as_str(self) -> (r: &'static str)
        ensures
            r@ == self.label(),
    {
        match self {
            State::LidOpen => "LID_OPEN",
            State::Docked => "DOCKED",
            State::Deferred => "DEFERRED",
            State::Countdown => "COUNTDOWN",
            State::Suspending => "SUSPENDING",
        }
    }
}

/// What kind of event the machine is looking at.
#[derive(Debug, Clone, Copy, PartialEq, Eq, Structural)]
pub enum EventKind {
    LidClose,
    LidOpen,
    MonitorAdded,
    MonitorRemoved,
    InhibitorOn,
    InhibitorOff,
    LockEngaged,
    LockReleased,
    AcPlugged,
    AcUnplugged,
    TimerExpired,
    Resumed,
    Reconcile,
    MonitorsChanged,
    CtxRepaired,
    PlatformProfileChanged,
    GpuOverrideChanged,
    BatteryLowChanged,
    PowerOverrideChanged,
    PowerAcSettled,
    ProfilesChanged,
    SuspendRequestChanged,
}

/// The inputs that [`world_state`] derives from.
#[derive(Debug, Clone, Copy, PartialEq, Eq, Structural)]
pub struct WorldInputs {
    pub lid_closed: bool,
    pub ext_mon_count: u32,
    /// A keep-awake claim is held.
    pub inhibitor: bool,
    /// A suspend request is standing.
    pub suspend_requested: bool,
    /// The session is locked; a keep-awake claim has no authority over it.
    pub locked: bool,
    /// Discharging below the low threshold; a request outranks every claim.
    pub battery_low: bool,
}

impl Default for WorldInputs {
    fn default() -> (r: Self)
        ensures
            r == (WorldInputs {
                lid_closed: false,
                ext_mon_count: 0,
                inhibitor: false,
                suspend_requested: false,
                locked: false,
                battery_low: false,
            }),
    {
        WorldInputs {
            lid_closed: false,
            ext_mon_count: 0,
            inhibitor: false,
            suspend_requested: false,
            locked: false,
            battery_low: false,
        }
    }
}

impl WorldInputs {
    /// A keep-awake claim counts only while the session is unlocked.
    pub open spec fn claimed(self) -> bool {
        self.inhibitor && !self.locked
    }

    /// Something asks for a suspend: a standing request, or a closed lid with no
    /// external display.
    pub open spec fn sleepy(self) -> bool {
        self.suspend_requested || (self.lid_closed && self.ext_mon_count == 0)
    }

    /// A claim stands in the way of the suspend that is asked for. A request made
    /// on a low battery outranks the claim.
    pub open spec fn parked(self) -> bool {
        self.claimed() && !(self.suspend_requested && self.battery_low)
    }
}

/// The state that the world alone calls for.
pub open spec fn world_of(w: WorldInputs) -> State {
    if w.sleepy() {
        if w.parked() {
            State::Deferred
        } else {
            State::Countdown
        }
    } else if w.lid_closed {
        State::Docked
    } else {
        State::LidOpen
    }
}

/// Derives the state that the world alone calls for.
///
/// A standing request drives the countdown ahead of the lid chain and ahead of a
/// dock; only a claim on a still-unlocked machine parks it, and on a low battery
/// not even that.
pub fn world_state(w: &WorldInputs) -> (r: State)
    ensures
        r == world_of(*w),
{
    let claimed = w.inhibitor && !w.locked;
    if w.suspend_requested {
        if claimed && !w.battery_low {
            State::Deferred
        } else {
            State::Countdown
        }
    } else if !w.lid_closed {
        State::LidOpen
    } else if w.ext_mon_count >= 1 {
        State::Docked
    } else if claimed {
        State::Deferred
    } else {
        State::Countdown
    }
}

/// The transition that `desired_state` makes.
pub open spec fn desired_of(state: State, ev: EventKind, w: WorldInputs) -> Option<State> {
    match ev {
        EventKind::TimerExpired => if state != State::Countdown {
            None
        } else if world_of(w) == State::Countdown {
            Some(State::Suspending)
        } else {
            Some(world_of(w))
        },
        EventKind::Resumed => if state == State::Suspending {
            Some(world_of(w))
        } else {
            None
        },
        _ => if state == State::Suspending || world_of(w) == state {
            None
        } else {
            Some(world_of(w))
        },
    }
}

/// The transition of the main machine; `None` means to stay put.
///
/// An expired timer re-derives the world first: where an input was repaired
/// behind the machine's back, no transition cancelled the timer, and a stale timer
/// must not suspend a machine whose lid is open.
pub fn desired_state(state: State, ev: EventKind, w: &WorldInputs) -> (r: Option<State>)
    ensures
        r == desired_of(state, ev, *w),
{
    if ev == EventKind::TimerExpired {
        if state != State::Countdown {
            return None;
        }
        let target = world_state(w);
        return Some(
            if target == State::Countdown {
                State::Suspending
            } else {
                target
            },
        );
    }
    if ev == EventKind::Resumed {
        return if state == State::Suspending {
            Some(world_state(w))
        } else {
            None
        };
    }
    if state == State::Suspending {
        return None;
    }
    let target = world_state(w);
    if target != state {
        Some(target)
    } else {
        None
    }
}

/// Inputs of the stuck-DPMS backstop.
#[derive(Debug, Clone, Copy, PartialEq, Eq, Structural)]
pub struct StuckScreenInputs {
    /// At least one enabled output reports DPMS off.
    pub dpms_off: bool,
    pub locked: bool,
    /// The cursor moved between two reconciler passes: someone is present.
    pub cursor_moved: bool,
}

impl Default for StuckScreenInputs {
    fn default() -> (r: Self)
        ensures
            r == (StuckScreenInputs { dpms_off: false, locked: false, cursor_moved: false }),
    {
        StuckScreenInputs { dpms_off: false, locked: false, cursor_moved: false }
    }
}

/// A dark output that nobody means to be dark.
pub open spec fn stuck_off(main: State, s: StuckScreenInputs) -> bool {
    &&& s.dpms_off
    &&& main == State::LidOpen || main == State::Docked
    &&& s.locked ==> s.cursor_moved
}

/// Whether an observed DPMS-off state is unowned and must be repaired.
///
/// The idle daemon does every blank, so a dark output is normally meant. It can
/// lose its own wake, though, and then no input lights the panels again. Only a
/// machine that is meant to show something is repaired; an unlocked one at once,
/// since it is never blanked on purpose; a locked one only when someone is there.
pub fn dpms_stuck_off(main: State, s: &StuckScreenInputs) -> (r: bool)
    ensures
        r == stuck_off(main, *s),
{
    if !s.dpms_off {
        return false;
    }
    if main != State::LidOpen && main != State::Docked {
        return false;
    }
    !s.locked || s.cursor_moved
}

/// Whether the internal panel may be turned off: never where it is the only
/// output, since a compositor without any monitor does not survive.
pub fn edp_may_disable(ext_mon_count: u32) -> (r: bool)
    ensures
        r == (ext_mon_count > 0),
{
    ext_mon_count > 0
}

// ---------------------------------------------------------------------- laws

/// The machine enters `Suspending` only from a countdown whose timer expired
/// while the world still calls for one.
pub proof fn suspending_only_after_countdown(state: State, ev: EventKind, w: WorldInputs)
    ensures
        desired_of(state, ev, w) == Some(State::Suspending) <==> state == State::Countdown && ev
            == EventKind::TimerExpired && world_of(w) == State::Countdown,
{
}

/// A suspending machine moves on nothing but a resume, and a resume moves it to
/// what the world calls for.
pub proof fn suspending_left_only_by_resume(ev: EventKind, w: WorldInputs)
    ensures
        desired_of(State::Suspending, ev, w) == (if ev == EventKind::Resumed {
            Some(world_of(w))
        } else {
            None
        }),
{
}

/// A transition always leads somewhere else.
pub proof fn transitions_change_the_state(state: State, ev: EventKind, w: WorldInputs)
    ensures
        desired_of(state, ev, w) != Some(state),
{
}

/// An expired timer never suspends a machine with an open lid and no standing
/// request.
pub proof fn stale_timer_never_suspends(state: State, w: WorldInputs)
    requires
        !w.lid_closed,
        !w.suspend_requested,
    ensures
        desired_of(state, EventKind::TimerExpired, w) != Some(State::Suspending),
{
}

/// Every event but an expired timer and a resume takes an awake machine to the
/// state that the world calls for, and an event repeated changes nothing more.
pub proof fn events_settle_on_the_world(state: State, ev: EventKind, w: WorldInputs)
    requires
        state != State::Suspending,
        ev != EventKind::TimerExpired,
        ev != EventKind::Resumed,
    ensures
        desired_of(state, ev, w) == (if state == world_of(w) {
            None
        } else {
            Some(world_of(w))
        }),
        desired_of(world_of(w), ev, w) is None,
{
}

/// Once the session is locked no keep-awake claim is consulted again.
pub proof fn lock_ends_claims(w: WorldInputs)
    requires
        w.locked,
    ensures
        world_of(w) == world_of(WorldInputs { inhibitor: false, ..w }),
        world_of(w) != State::Deferred,
{
}

/// A standing request outranks a dock and an open lid: the world then calls for a
/// countdown, or parks it under a claim on an unlocked machine.
pub proof fn request_outranks_dock(w: WorldInputs)
    requires
        w.suspend_requested,
    ensures
        world_of(w) == State::Countdown || world_of(w) == State::Deferred,
        world_of(w) == State::Deferred <==> w.inhibitor && !w.locked && !w.battery_low,
{
}

/// A request made on a low battery leads to the countdown whatever is claimed.
pub proof fn battery_low_outranks_claims(w: WorldInputs)
    requires
        w.suspend_requested,
        w.battery_low,
    ensures
        world_of(w) == State::Countdown,
{
}

/// Without a request the world follows the lid: open, closed with a dock, closed
/// with a claim, closed with nothing in the way.
pub proof fn world_follows_the_lid(w: WorldInputs)
    requires
        !w.suspend_requested,
    ensures
        world_of(w) == State::LidOpen <==> !w.lid_closed,
        world_of(w) == State::Docked <==> w.lid_closed && w.ext_mon_count >= 1,
        world_of(w) == State::Deferred <==> w.lid_closed && w.ext_mon_count == 0 && w.inhibitor
            && !w.locked,
        world_of(w) == State::Countdown <==> w.lid_closed && w.ext_mon_count == 0 && !(w.inhibitor
            && !w.locked),
{
}

/// A machine on its way to suspend stays dark, and so does a locked one that
/// nobody touches.
pub proof fn dark_on_the_way_to_suspend(main: State, s: StuckScreenInputs)
    ensures
        main == State::Countdown || main == State::Deferred || main == State::Suspending
            ==> !stuck_off(main, s),
        s.locked && !s.cursor_moved ==> !stuck_off(main, s),
        !s.dpms_off ==> !stuck_off(main, s),
{
}

} // verus!
