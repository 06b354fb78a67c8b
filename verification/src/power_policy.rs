//! Power policy: override stamping and expiry, the profile that is wanted, and the
//! brightness steps on the edges between base states.
//!
//! Every step is idempotent on unchanged inputs: the echo of the daemon's own
//! override-file write must land as a no-op.
use vstd::prelude::*;

use crate::ctx::{Backlight, LightView, PowerState};
use crate::power::{ac_axis, AcAxis, BaseState, PowerProfile};

verus! {

/// What a policy check did to a manual override.
#[derive(Debug, Clone, Copy, PartialEq, Eq, Structural)]
pub enum OverrideOutcome {
    /// There is none, or it stands.
    Untouched,
    /// It was seen for the first time and bound to the base state.
    Stamped,
    /// It lapsed.
    Expired,
}

/// An override lapses when the charger changes sides, or when the battery runs low;
/// a dock that comes or goes never ends it.
pub open spec fn expires(stamped: BaseState, base: BaseState) -> bool {
    ||| crate::power::axis_of(base) != crate::power::axis_of(stamped)
    ||| base == BaseState::BatteryLow && stamped != BaseState::BatteryLow
}

/// What a policy check makes of a manual override.
pub open spec fn override_checked(p: PowerState, base: BaseState) -> (PowerState, OverrideOutcome) {
    match (p.manual, p.manual_base) {
        (Some(_), None) => (
            PowerState { manual_base: Some(base), ..p },
            OverrideOutcome::Stamped,
        ),
        (Some(_), Some(stamped)) => if expires(stamped, base) {
            (PowerState { manual: None, manual_base: None, ..p }, OverrideOutcome::Expired)
        } else {
            (p, OverrideOutcome::Untouched)
        },
        (None, _) => (p, OverrideOutcome::Untouched),
    }
}

/// Checks a manual override: stamps it with the base state when it is new, drops it
/// when it has lapsed.
pub fn check_override(power: &mut PowerState, base: BaseState) -> (r: OverrideOutcome)
    ensures
        (*final(power), r) == override_checked(*old(power), base),
{
    if power.manual.is_none() {
        return OverrideOutcome::Untouched;
    }
    match power.manual_base {
        None => {
            power.manual_base = Some(base);
            OverrideOutcome::Stamped
        },
        Some(stamped) => {
            if ac_axis(base) != ac_axis(stamped) || (base == BaseState::BatteryLow && stamped
                != BaseState::BatteryLow) {
                power.manual = None;
                power.manual_base = None;
                OverrideOutcome::Expired
            } else {
                OverrideOutcome::Untouched
            }
        },
    }
}

/// What to tell the user when an override has lapsed.
pub open spec fn expiry_text(policy: PowerProfile, base: BaseState) -> Seq<char> {
    "Power override cleared — back to automatic ("@ + policy.word() + " on "@ + base.word() + ")"@
}

/// What to tell the user when an override has lapsed.
pub fn expiry_message(policy: PowerProfile, base: BaseState) -> (r: String)
    ensures
        r@ == expiry_text(policy, base),
{
    let mut out = String::from_str("Power override cleared — back to automatic (");
    out.append(policy.as_str());
    out.append(" on ");
    out.append(base.as_str());
    out.append(")");
    out
}

// ---------------------------------------------------------------- brightness

/// What is done to the brightness on the edge between two base states.
#[derive(Debug, Clone, Copy, PartialEq, Eq, Structural)]
pub enum BrightnessStep {
    /// Remember the level and cap it: the charger was pulled.
    SaveAndCap,
    /// Cap the level: the battery ran low.
    Cap,
    /// Bring the remembered level back: the charger is there again.
    Restore,
}

/// The steps on an edge. Nothing happens on the first look, or where the base state
/// did not change; manual profile changes never touch the brightness.
pub open spec fn steps_between(prev: Option<BaseState>, base: BaseState) -> Seq<BrightnessStep> {
    match prev {
        None => seq![],
        Some(p) => {
            let was = crate::power::axis_of(p);
            let is = crate::power::axis_of(base);
            if p == base {
                seq![]
            } else {
                (if was == AcAxis::Ac && is == AcAxis::Battery {
                    seq![BrightnessStep::SaveAndCap]
                } else {
                    seq![]
                }) + (if base == BaseState::BatteryLow {
                    seq![BrightnessStep::Cap]
                } else {
                    seq![]
                }) + (if was == AcAxis::Battery && is == AcAxis::Ac {
                    seq![BrightnessStep::Restore]
                } else {
                    seq![]
                })
            }
        },
    }
}

/// Notes the base state and tells which brightness steps are due.
pub fn brightness_edges(power: &mut PowerState, base: BaseState) -> (r: Vec<BrightnessStep>)
    ensures
        *final(power) == (PowerState { last_base: Some(base), ..*old(power) }),
        r@ == steps_between(old(power).last_base, base),
{
    let prev = power.last_base;
    power.last_base = Some(base);
    let mut out: Vec<BrightnessStep> = Vec::new();
    match prev {
        None => {},
        Some(p) => {
            if p != base {
                if ac_axis(p) == AcAxis::Ac && ac_axis(base) == AcAxis::Battery {
                    out.push(BrightnessStep::SaveAndCap);
                }
                if base == BaseState::BatteryLow {
                    out.push(BrightnessStep::Cap);
                }
                if ac_axis(p) == AcAxis::Battery && ac_axis(base) == AcAxis::Ac {
                    out.push(BrightnessStep::Restore);
                }
            }
        },
    }
    assert(out@ =~= steps_between(prev, base));
    out
}

/// The level differs from the one last set by more than half a percent of the
/// range: the user has taken over.
pub open spec fn took_over(c: LightView, level: Option<u32>) -> bool {
    match (c.set, level) {
        (Some(set), Some(cur)) => {
            let delta = if cur >= set {
                cur - set
            } else {
                set - cur
            };
            delta > c.max / 200
        },
        _ => false,
    }
}

/// Whether the user has taken the brightness over.
pub fn brightness_user_took_over(light: &Backlight, level: Option<u32>) -> (r: bool)
    ensures
        r == took_over(light@, level),
{
    match (light.set, level) {
        (Some(set), Some(cur)) => {
            let delta: u32 = if cur >= set {
                cur - set
            } else {
                set - cur
            };
            delta > light.max / 200
        },
        _ => false,
    }
}

/// The highest level that a step leaves alone.
pub open spec fn cap_of(step: BrightnessStep, max: u32) -> u32 {
    match step {
        BrightnessStep::SaveAndCap => max / 2,
        BrightnessStep::Cap => max / 4,
        BrightnessStep::Restore => max,
    }
}

/// What a step does, given the present level: the context afterwards, and the level
/// to set, if any.
pub open spec fn stepped(c: LightView, step: BrightnessStep, level: Option<u32>) -> (
    LightView,
    Option<u32>,
) {
    match step {
        BrightnessStep::Restore => match c.saved {
            None => (c, None),
            Some(saved) => {
                let d = LightView { saved: None, ..c };
                if took_over(c, level) {
                    (LightView { set: level, ..d }, None)
                } else {
                    (d, Some(saved))
                }
            },
        },
        _ => if took_over(c, level) {
            (LightView { saved: None, set: level, ..c }, None)
        } else {
            match level {
                None => (c, None),
                Some(cur) => (
                    if step == BrightnessStep::SaveAndCap {
                        LightView { saved: Some(cur), ..c }
                    } else {
                        c
                    },
                    if cur > cap_of(step, c.max) {
                        Some(cap_of(step, c.max))
                    } else {
                        None
                    },
                ),
            }
        },
    }
}

/// Remembers the level and caps it.
pub fn brightness_save_and_cap(light: &mut Backlight, level: Option<u32>) -> (r: Option<u32>)
    ensures
        final(light)@ == stepped(old(light)@, BrightnessStep::SaveAndCap, level).0,
        r == stepped(old(light)@, BrightnessStep::SaveAndCap, level).1,
{
    if brightness_user_took_over(light, level) {
        light.saved = None;
        light.set = level;
        return None;
    }
    match level {
        None => None,
        Some(cur) => {
            light.saved = Some(cur);
            let cap: u32 = light.max / 2;
            if cur > cap {
                Some(cap)
            } else {
                None
            }
        },
    }
}

/// Caps the level.
pub fn brightness_cap(light: &mut Backlight, level: Option<u32>) -> (r: Option<u32>)
    ensures
        (final(light)@, r) == stepped(old(light)@, BrightnessStep::Cap, level),
{
    if brightness_user_took_over(light, level) {
        light.saved = None;
        light.set = level;
        return None;
    }
    match level {
        None => None,
        Some(cur) => {
            let cap: u32 = light.max / 4;
            if cur > cap {
                Some(cap)
            } else {
                None
            }
        },
    }
}

/// Brings the remembered level back.
pub fn brightness_restore(light: &mut Backlight, level: Option<u32>) -> (r: Option<u32>)
    ensures
        (final(light)@, r) == stepped(old(light)@, BrightnessStep::Restore, level),
{
    match light.saved {
        None => None,
        Some(saved) => {
            let over = brightness_user_took_over(light, level);
            light.saved = None;
            if over {
                light.set = level;
                None
            } else {
                Some(saved)
            }
        },
    }
}

/// The level that is written for a wanted one: never dark, never above the range.
pub open spec fn written_level(value: u32, max: u32) -> u32 {
    if value < 1 {
        1
    } else if value > max {
        max
    } else {
        value
    }
}

/// The level that is written for a wanted one.
pub fn clamp_level(value: u32, max: u32) -> (r: u32)
    requires
        max >= 1,
    ensures
        r == written_level(value, max),
{
    if value < 1 {
        1
    } else if value > max {
        max
    } else {
        value
    }
}

// ---------------------------------------------------------------------- laws

/// A second look at unchanged inputs changes nothing.
pub proof fn override_check_is_idempotent(p: PowerState, base: BaseState)
    ensures
        override_checked(override_checked(p, base).0, base) == (
            override_checked(p, base).0,
            OverrideOutcome::Untouched,
        ),
{
}

/// A dock that comes or goes, and a battery that recovers, leave an override alone:
/// only the charger changing sides and the battery running low end it.
pub proof fn override_ends_only_on_power_changes(p: PowerState, stamped: BaseState, base: BaseState)
    requires
        p.manual is Some,
        p.manual_base == Some(stamped),
    ensures
        override_checked(p, base).0.manual is None <==> (crate::power::axis_of(stamped)
            != crate::power::axis_of(base) || (base == BaseState::BatteryLow && stamped
            != BaseState::BatteryLow)),
        override_checked(p, base).0.manual is Some ==> override_checked(p, base).0 == p,
        stamped == BaseState::Ac && base == BaseState::DockedAc ==> override_checked(p, base).0 == p,
        stamped == BaseState::DockedAc && base == BaseState::Ac ==> override_checked(p, base).0 == p,
{
}

/// The brightness is touched only on an edge, and on the same base state never.
pub proof fn no_edge_no_brightness(base: BaseState)
    ensures
        steps_between(None, base).len() == 0,
        steps_between(Some(base), base).len() == 0,
{
}

/// Pulling the charger and plugging it in again brings the level back that was
/// there before, unless the user has set another one meanwhile.
pub proof fn replugging_restores_the_level(c: LightView, level: u32, later: Option<u32>)
    requires
        !took_over(c, Some(level)),
    ensures
        ({
            let d = stepped(c, BrightnessStep::SaveAndCap, Some(level)).0;
            !took_over(d, later) ==> stepped(d, BrightnessStep::Restore, later).1 == Some(level)
        }),
{
}

/// No cap ever raises the level, and a level is never written outside the range.
pub proof fn caps_only_lower(c: LightView, step: BrightnessStep, level: u32)
    requires
        step != BrightnessStep::Restore,
    ensures
        stepped(c, step, Some(level)).1 matches Some(v) ==> v < level,
        c.max >= 1 ==> forall|v: u32|
            1 <= #[trigger] written_level(v, c.max) <= c.max,
{
}

} // verus!
