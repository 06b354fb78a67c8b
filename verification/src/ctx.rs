//! The daemon's context: everything the dispatcher remembers between events.
use vstd::prelude::*;

use crate::fsm::{State, WorldInputs};
use crate::number;
use crate::power::{
    BaseState, Percent, PowerPolicy, PowerProfile, SelfWriteTracker, TrackerView,
    DEFAULT_BATTERY_LOW_PCT,
};
use crate::profiles::EdpPolicy;
use crate::text;
use crate::toml_profile::{TomlProfile, TomlView};

verus! {

/// Inputs of the main machine and of the screen backstop.
#[derive(Debug, Clone, Copy)]
pub struct Inputs {
    pub lid_closed: bool,
    /// Whether the machine has a lid at all. Lid reports of a machine that is
    /// declared lidless are ignored.
    pub lid_present: bool,
    pub ext_mon_count: u32,
    pub logind_inhibitor: bool,
    pub wayland_inhibitor: bool,
    pub locked: bool,
    pub on_ac: bool,
    pub state: State,
    /// A standing suspend request. Cleared on resume before anything is derived
    /// from it: a stale one would send the machine straight back to sleep.
    pub suspend_requested: bool,
    /// The cursor position at the previous reconciler pass, while something was
    /// dark; a change means that someone is there.
    pub last_cursor_pos: Option<(i64, i64)>,
}

/// The state of power policy.
#[derive(Debug, Clone, Copy, PartialEq, Eq, Structural)]
pub struct PowerState {
    pub on_ac_settled: bool,
    /// `None`: no battery, or none that anything reports on.
    pub battery_percent: Option<Percent>,
    pub low_battery: bool,
    pub policy: PowerPolicy,
    pub battery_low_pct: u8,
    /// The manual override.
    pub manual: Option<PowerProfile>,
    /// The base state that the override was bound to.
    pub manual_base: Option<BaseState>,
    pub applied: Option<PowerProfile>,
    pub last_base: Option<BaseState>,
    pub powerd_available: bool,
    pub powerd_warned: bool,
}

/// The monitor profile in force.
#[derive(Debug)]
pub struct ActiveProfile {
    pub current: Option<String>,
    /// The body of the profile in force: the same name with another body must be
    /// applied again.
    pub rev: Option<TomlProfile>,
    pub edp_policy: EdpPolicy,
}

/// What is known of the session's GPU selection.
#[derive(Debug)]
pub struct GpuSession {
    /// `None`: an unmanaged session. An empty list: the compositor's defaults, but
    /// advice is still wanted.
    pub actual: Option<Vec<String>>,
    pub pending: bool,
    pub last_notified: Option<String>,
    /// When the last advice was given, in nanoseconds.
    pub last_notify_at: Option<u64>,
    /// The last runtime-PM pin that the power service took; `None`: none yet.
    pub pinned: Option<bool>,
}

/// The backlight that brightness steps work on.
#[derive(Debug)]
pub struct Backlight {
    pub dev: Option<String>,
    pub max: u32,
    /// The level that was last set.
    pub set: Option<u32>,
    /// The level to bring back.
    pub saved: Option<u32>,
}

/// The context. Only the dispatcher changes it; event sources send events.
#[derive(Debug)]
pub struct Context {
    pub inputs: Inputs,
    pub power: PowerState,
    pub profile: ActiveProfile,
    pub gpu: GpuSession,
    pub self_writes: SelfWriteTracker,
    pub backlight: Backlight,
}

/// What an [`ActiveProfile`] holds.
pub struct ActiveView {
    pub current: Option<Seq<char>>,
    pub rev: Option<TomlView>,
    pub edp_policy: EdpPolicy,
}

/// What a [`GpuSession`] holds.
pub struct GpuView {
    pub actual: Option<Seq<Seq<char>>>,
    pub pending: bool,
    pub last_notified: Option<Seq<char>>,
    pub last_notify_at: Option<int>,
    pub pinned: Option<bool>,
}

/// What a [`Backlight`] holds.
pub struct LightView {
    pub dev: Option<Seq<char>>,
    pub max: u32,
    pub set: Option<u32>,
    pub saved: Option<u32>,
}

/// What a [`Context`] holds.
pub struct CtxView {
    pub inputs: Inputs,
    pub power: PowerState,
    pub profile: ActiveView,
    pub gpu: GpuView,
    pub self_writes: TrackerView,
    pub backlight: LightView,
}

/// What an optional profile holds.
pub open spec fn opt_profile(p: Option<TomlProfile>) -> Option<TomlView> {
    match p {
        Some(p) => Some(p@),
        None => None,
    }
}

/// What an optional list of strings holds.
pub open spec fn opt_strings(v: Option<Vec<String>>) -> Option<Seq<Seq<char>>> {
    match v {
        Some(v) => Some(text::strings(v@)),
        None => None,
    }
}

impl View for ActiveProfile {
    type V = ActiveView;

    open spec fn view(&self) -> ActiveView {
        ActiveView {
            current: text::opt_string(self.current),
            rev: opt_profile(self.rev),
            edp_policy: self.edp_policy,
        }
    }
}

impl View for GpuSession {
    type V = GpuView;

    open spec fn view(&self) -> GpuView {
        GpuView {
            actual: opt_strings(self.actual),
            pending: self.pending,
            last_notified: text::opt_string(self.last_notified),
            last_notify_at: number::opt_u64(self.last_notify_at),
            pinned: self.pinned,
        }
    }
}

impl View for Backlight {
    type V = LightView;

    open spec fn view(&self) -> LightView {
        LightView {
            dev: text::opt_string(self.dev),
            max: self.max,
            set: self.set,
            saved: self.saved,
        }
    }
}

impl View for Context {
    type V = CtxView;

    open spec fn view(&self) -> CtxView {
        CtxView {
            inputs: self.inputs,
            power: self.power,
            profile: self.profile@,
            gpu: self.gpu@,
            self_writes: self.self_writes@,
            backlight: self.backlight@,
        }
    }
}

/// The inputs before anything was seen.
pub open spec fn initial_inputs() -> Inputs {
    Inputs {
        lid_closed: false,
        lid_present: true,
        ext_mon_count: 0,
        logind_inhibitor: false,
        wayland_inhibitor: false,
        locked: false,
        on_ac: true,
        state: State::LidOpen,
        suspend_requested: false,
        last_cursor_pos: None,
    }
}

/// The state of power policy before anything was seen.
pub open spec fn initial_power() -> PowerState {
    PowerState {
        on_ac_settled: true,
        battery_percent: Some(Percent::Known { whole: 100, fraction: false }),
        low_battery: false,
        policy: crate::power::default_policy(),
        battery_low_pct: DEFAULT_BATTERY_LOW_PCT,
        manual: None,
        manual_base: None,
        applied: None,
        last_base: None,
        powerd_available: true,
        powerd_warned: false,
    }
}

/// The context of a daemon that has seen nothing yet.
pub open spec fn initial_ctx() -> CtxView {
    CtxView {
        inputs: initial_inputs(),
        power: initial_power(),
        profile: ActiveView { current: None, rev: None, edp_policy: EdpPolicy::Auto },
        gpu: GpuView {
            actual: None,
            pending: true,
            last_notified: None,
            last_notify_at: None,
            pinned: None,
        },
        self_writes: TrackerView { entries: seq![], last_apply: None },
        backlight: LightView { dev: None, max: 0, set: None, saved: None },
    }
}

impl Default for Context {
    fn default() -> (r: Self)
        ensures
            r@ == initial_ctx(),
    {
        let r = Context {
            inputs: Inputs {
                lid_closed: false,
                lid_present: true,
                ext_mon_count: 0,
                logind_inhibitor: false,
                wayland_inhibitor: false,
                locked: false,
                on_ac: true,
                state: State::LidOpen,
                suspend_requested: false,
                last_cursor_pos: None,
            },
            power: PowerState {
                on_ac_settled: true,
                battery_percent: Some(Percent::exactly(100)),
                low_battery: false,
                policy: PowerPolicy::default(),
                battery_low_pct: DEFAULT_BATTERY_LOW_PCT,
                manual: None,
                manual_base: None,
                applied: None,
                last_base: None,
                powerd_available: true,
                powerd_warned: false,
            },
            profile: ActiveProfile { current: None, rev: None, edp_policy: EdpPolicy::Auto },
            gpu: GpuSession {
                actual: None,
                pending: true,
                last_notified: None,
                last_notify_at: None,
                pinned: None,
            },
            self_writes: SelfWriteTracker::default(),
            backlight: Backlight { dev: None, max: 0, set: None, saved: None },
        };
        assert(r@.self_writes.entries =~= Seq::empty());
        r
    }
}

impl LightView {
    /// A backlight has at least one level.
    pub open spec fn wf(self) -> bool {
        self.dev is Some ==> self.max >= 1
    }
}

impl CtxView {
    /// What every context satisfies: the low threshold leaves room for the exit of
    /// the hysteresis, and a backlight has at least one level.
    pub open spec fn wf(self) -> bool {
        1 <= self.power.battery_low_pct <= 50 && self.backlight.wf()
    }

    /// A keep-awake claim is held, whatever its source.
    pub open spec fn inhibited(self) -> bool {
        self.inputs.logind_inhibitor || self.inputs.wayland_inhibitor
    }

    /// What the main machine sees of the context. A battery counts as low only
    /// while the machine runs on it.
    pub open spec fn world(self) -> WorldInputs {
        WorldInputs {
            lid_closed: self.inputs.lid_closed,
            ext_mon_count: self.inputs.ext_mon_count,
            inhibitor: self.inhibited(),
            suspend_requested: self.inputs.suspend_requested,
            locked: self.inputs.locked,
            battery_low: self.power.low_battery && !self.inputs.on_ac,
        }
    }

    /// The base state that power policy works from.
    pub open spec fn base(self) -> BaseState {
        crate::power::base_of(
            self.power.on_ac_settled,
            self.inputs.ext_mon_count,
            self.power.low_battery,
        )
    }

    /// The power profile that is wanted: the override, or what the policy has for
    /// the base state.
    pub open spec fn wanted_profile(self) -> PowerProfile {
        match self.power.manual {
            Some(p) => p,
            None => self.power.policy.at(self.base()),
        }
    }
}

impl Context {
    /// Whether a keep-awake claim is held.
    pub fn inhibitor(&self) -> (r: bool)
        ensures
            r == self@.inhibited(),
    {
        self.inputs.logind_inhibitor || self.inputs.wayland_inhibitor
    }

    /// What the main machine sees of the context.
    pub fn world(&self) -> (r: WorldInputs)
        ensures
            r == self@.world(),
    {
        WorldInputs {
            lid_closed: self.inputs.lid_closed,
            ext_mon_count: self.inputs.ext_mon_count,
            inhibitor: self.inhibitor(),
            suspend_requested: self.inputs.suspend_requested,
            locked: self.inputs.locked,
            battery_low: self.power.low_battery && !self.inputs.on_ac,
        }
    }

    /// The base state that power policy works from.
    pub fn base_state(&self) -> (r: BaseState)
        ensures
            r == self@.base(),
    {
        crate::power::power_base_state(
            self.power.on_ac_settled,
            self.inputs.ext_mon_count,
            self.power.low_battery,
        )
    }

    /// The power profile that is wanted.
    pub fn desired_profile(&self) -> (r: PowerProfile)
        ensures
            r == self@.wanted_profile(),
    {
        match self.power.manual {
            Some(p) => p,
            None => self.power.policy.for_base(self.base_state()),
        }
    }
}

/// The context of a fresh daemon is well formed.
pub proof fn initial_ctx_is_wf()
    ensures
        initial_ctx().wf(),
{
}

} // verus!
