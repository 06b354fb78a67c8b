//! What power policy is for: the profile that is applied, the override, the brightness
//! and the battery's own suspend request.
use vstd::prelude::*;

use crate::ctx::{CtxView, LightView, PowerState};
use crate::effectors::{Cmd, Topic};
use crate::laws::states;
use crate::main_flow::Mode;
use crate::power;
use crate::power::{BaseState, PowerProfile};
use crate::power_flow;
use crate::power_policy;
use crate::power_policy::BrightnessStep;
use crate::tasks::{Action, BatteryTask, LightTask, PowerTask, Reply, TodoView};

verus! {

/// The profile that should be in force: the override, or what the policy has for the
/// machine as it is powered now.
pub open spec fn due(c: CtxView) -> PowerProfile {
    let p = c.power;
    match p.manual {
        Some(profile) => profile,
        None => if p.on_ac_settled && c.inputs.ext_mon_count > 0 {
            p.policy.docked_ac
        } else if p.on_ac_settled {
            p.policy.ac
        } else if p.low_battery {
            p.policy.battery_low
        } else {
            p.policy.battery
        },
    }
}

/// The machine runs on its battery, in this base state.
pub open spec fn draining(b: BaseState) -> bool {
    b == BaseState::Battery || b == BaseState::BatteryLow
}

// --------------------------------------------------------------------------- applying

/// The profile that should be in force is asked for, unless it is in force or there is no
/// service to ask; the values that it may show up as are expected for five seconds.
pub proof fn the_due_profile_is_asked_for(c: CtxView, m: Mode, now: int, reply: Reply)
    ensures
        ({
            let (e, o) = power_flow::policy_step(c, m, PowerTask::Apply, now, reply);
            let busy = c.power.powerd_available && c.power.applied != Some(due(c));
            &&& !busy ==> e == c && o.act is None && o.next.len() == 0
            &&& busy && !m.shadow ==> o.act == Some(Action::<Seq<char>>::ApplyPower(due(c)))
                && o.next == seq![TodoView::Power(PowerTask::Applied(due(c)))] && e.power == c.power
            &&& busy && m.shadow ==> o.act is None && e.power.applied == Some(due(c))
            &&& busy ==> {
                &&& e.self_writes.last_apply == Some(now)
                &&& e.self_writes.entries.len() == c.self_writes.entries.len() + 1
                &&& e.self_writes.entries.last().expiry == now + 5_000_000_000
                &&& e.self_writes.entries.last().values.contains(
                    match due(c) {
                        PowerProfile::PowerSaver => "low-power"@,
                        PowerProfile::Balanced => "balanced"@,
                        PowerProfile::Performance => "performance"@,
                    },
                )
                &&& due(c) == PowerProfile::PowerSaver ==> e.self_writes.entries.last().values.contains(
                    "quiet"@,
                )
            }
            &&& e.inputs == c.inputs && e.profile == c.profile && e.backlight == c.backlight
        }),
{
    let chain = power::chain_of(due(c));
    assert(chain.contains(chain[0]));
    if due(c) == PowerProfile::PowerSaver {
        assert(chain.contains(chain[1]));
    }
}

/// A profile that the service took is in force; one that it did not take marks the
/// service as gone, and what was in force stays.
pub proof fn answers_of_the_service_count(
    c: CtxView,
    m: Mode,
    p: PowerProfile,
    now: int,
    reply: Reply,
)
    ensures
        ({
            let e = power_flow::policy_step(c, m, PowerTask::Applied(p), now, reply).0;
            &&& reply.yes() ==> e.power.applied == Some(p) && e.power.powerd_available
                == c.power.powerd_available
            &&& !reply.yes() ==> e.power.applied == c.power.applied && !e.power.powerd_available
                && e.power.powerd_warned
            &&& e.power.manual == c.power.manual && e.power.on_ac_settled == c.power.on_ac_settled
        }),
{
}

// ------------------------------------------------------------------------- override

/// A policy check binds a new override to the base state, and ends one whose charger
/// changed sides or whose battery has run low since. An end is told, and the file goes.
/// Whatever happened, the profile is seen to next, and the brightness after it.
pub proof fn overrides_are_bound_and_ended(c: CtxView, m: Mode, now: int, reply: Reply)
    ensures
        ({
            let (e, o) = power_flow::policy_step(c, m, PowerTask::Begin, now, reply);
            let (p, q) = (c.power, e.power);
            let base = c.base();
            let ended = p.manual is Some && (p.manual_base matches Some(b) && (draining(b)
                != draining(base) || base == BaseState::BatteryLow && b != BaseState::BatteryLow));
            let n = o.next.len() as int;
            &&& ended ==> q.manual is None && q.manual_base is None
            &&& !ended ==> q.manual == p.manual
            &&& p.manual is Some && p.manual_base is None ==> q.manual_base == Some(base)
            &&& p.manual is Some && !ended && p.manual_base is Some ==> q.manual_base
                == p.manual_base
            &&& n >= 2 && o.next[n - 2] == TodoView::Power(PowerTask::Apply) && o.next[n - 1]
                == TodoView::Power(PowerTask::Edges)
            &&& !ended ==> n == 2
            &&& ended && !m.shadow ==> n == 4 && o.next[0] == TodoView::Emit(Action::RemoveOverride)
            &&& ended && m.shadow ==> n == 3
            &&& ended ==> o.next[n - 3] == TodoView::Emit(
                states::as_told(
                    m,
                    Cmd::Notify {
                        topic: Topic::Power,
                        body: "Power override cleared — back to automatic ("@ + p.policy.at(
                            base,
                        ).word() + " on "@ + base.word() + ")"@,
                    },
                ),
            )
            &&& q == (PowerState { manual: q.manual, manual_base: q.manual_base, ..p })
        }),
{
}

// ------------------------------------------------------------------------ brightness

/// Pulling the charger saves the level and caps it, a battery that has run low caps it
/// further, and the charger that comes back restores it: in this order, and only where
/// the base state changed since the check before. The base state is remembered.
pub proof fn edges_move_the_brightness(c: CtxView, m: Mode, now: int, reply: Reply)
    ensures
        ({
            let (e, o) = power_flow::policy_step(c, m, PowerTask::Edges, now, reply);
            let base = c.base();
            let step = |s: BrightnessStep| TodoView::Light(LightTask::Begin(s));
            &&& e.power.last_base == Some(base)
            &&& c.power.last_base is None ==> o.next.len() == 0
            &&& c.power.last_base matches Some(b) ==> {
                &&& b == base ==> o.next.len() == 0
                &&& !draining(b) && base == BaseState::Battery ==> o.next == seq![
                    step(BrightnessStep::SaveAndCap),
                ]
                &&& !draining(b) && base == BaseState::BatteryLow ==> o.next == seq![
                    step(BrightnessStep::SaveAndCap),
                    step(BrightnessStep::Cap),
                ]
                &&& b == BaseState::Battery && base == BaseState::BatteryLow ==> o.next == seq![
                    step(BrightnessStep::Cap),
                ]
                &&& b == BaseState::BatteryLow && base == BaseState::Battery ==> o.next.len() == 0
                &&& draining(b) && !draining(base) ==> o.next == seq![
                    step(BrightnessStep::Restore),
                ]
                &&& !draining(b) && !draining(base) ==> o.next.len() == 0
            }
        }),
{
    let next = power_flow::policy_step(c, m, PowerTask::Edges, now, reply).1.next;
    let step = |s: BrightnessStep| TodoView::Light(LightTask::Begin(s));
    let base = c.base();
    match c.power.last_base {
        Some(b) => {
            if !draining(b) && base == BaseState::Battery {
                assert(next =~= seq![step(BrightnessStep::SaveAndCap)]);
            } else if !draining(b) && base == BaseState::BatteryLow {
                assert(next =~= seq![step(BrightnessStep::SaveAndCap), step(BrightnessStep::Cap)]);
            } else if b == BaseState::Battery && base == BaseState::BatteryLow {
                assert(next =~= seq![step(BrightnessStep::Cap)]);
            } else if draining(b) && !draining(base) {
                assert(next =~= seq![step(BrightnessStep::Restore)]);
            }
        },
        None => {},
    }
}

/// The user has set the level since it was last set here: it differs by more than half a
/// percent of the range.
pub open spec fn moved_by_hand(l: LightView, level: u32) -> bool {
    l.set matches Some(s) && (level - s > l.max / 200 || s - level > l.max / 200)
}

/// Saving remembers the level and caps it at half of the range, capping at a quarter; a
/// level that is low enough is left alone. A level that the user has set is theirs: it is
/// neither saved nor touched, and what was saved is forgotten.
pub proof fn levels_are_saved_and_capped(l: LightView, level: u32)
    ensures
        ({
            let (s, sv) = power_policy::stepped(l, BrightnessStep::SaveAndCap, Some(level));
            let (k, kv) = power_policy::stepped(l, BrightnessStep::Cap, Some(level));
            &&& moved_by_hand(l, level) ==> sv is None && kv is None && s.saved is None
                && k.saved is None && s.set == Some(level) && k.set == Some(level)
            &&& !moved_by_hand(l, level) ==> {
                &&& s.saved == Some(level) && k.saved == l.saved
                &&& level > l.max / 2 ==> sv == Some((l.max / 2) as u32)
                &&& level <= l.max / 2 ==> sv is None
                &&& level > l.max / 4 ==> kv == Some((l.max / 4) as u32)
                &&& level <= l.max / 4 ==> kv is None
                &&& s.set == l.set && k.set == l.set
            }
            &&& s.dev == l.dev && s.max == l.max && k.dev == l.dev && k.max == l.max
        }),
{
}

/// Restoring brings back the level that was saved, once; a level that the user has set
/// stays, and so does every level where nothing was saved.
pub proof fn saved_levels_are_restored(l: LightView, level: Option<u32>)
    ensures
        ({
            let (r, v) = power_policy::stepped(l, BrightnessStep::Restore, level);
            let theirs = level matches Some(n) && moved_by_hand(l, n);
            &&& r.saved is None
            &&& l.saved is None ==> v is None && r == l
            &&& l.saved is Some && !theirs ==> v == l.saved
            &&& l.saved is Some && theirs ==> v is None && r.set == level
        }),
{
}

/// A brightness step reads the level of the backlight that is there, and what it decides
/// is written through the session, never dark and never above the range; a level that was
/// written is remembered.
pub proof fn brightness_steps_reach_the_backlight(
    c: CtxView,
    m: Mode,
    step: BrightnessStep,
    v: u32,
    dev: Seq<char>,
    reply: Reply,
)
    requires
        c.backlight.dev == Some(dev),
        c.backlight.max >= 1,
    ensures
        ({
            let begun = power_flow::light_step(c, m, LightTask::Begin(step), reply).1;
            let read = power_flow::light_step(c, m, LightTask::Read(step), reply);
            let wrote = power_flow::light_step(c, m, LightTask::Write(v), reply);
            let level = if v < 1 {
                1
            } else if v > c.backlight.max {
                c.backlight.max
            } else {
                v
            };
            let done = power_flow::light_step(c, m, LightTask::Written(v), reply).0;
            &&& begun.act == Some(Action::ReadBrightness(dev)) && begun.next == seq![
                TodoView::Light(LightTask::Read(step)),
            ]
            &&& read.0.backlight == power_policy::stepped(c.backlight, step, reply.light()).0
            &&& power_policy::stepped(c.backlight, step, reply.light()).1 matches Some(w)
                ==> read.1.next == seq![TodoView::Light(LightTask::Write(w))]
            &&& !m.shadow && m.session ==> wrote.1.act == Some(
                Action::SetBrightness { dev, level },
            ) && wrote.1.next == seq![TodoView::Light(LightTask::Written(level))]
            &&& m.shadow && m.session ==> wrote.1.act is None && wrote.0.backlight.set == Some(
                level,
            )
            &&& !m.session ==> wrote.1.act is None && wrote.0 == c
            &&& reply.yes() ==> done.backlight.set == Some(v)
            &&& !reply.yes() ==> done == c
        }),
{
}

/// After waking up the level that is found is taken as the one that was set, so that a
/// change made in between is not held against the user.
pub proof fn waking_rearms_the_brightness(c: CtxView, m: Mode, reply: Reply)
    ensures
        ({
            let asked = power_flow::light_step(c, m, LightTask::Rearm, reply).1;
            let read = power_flow::light_step(c, m, LightTask::RearmRead, reply).0;
            &&& c.backlight.dev matches Some(dev) ==> asked.act == Some(Action::ReadBrightness(dev))
                && asked.next == seq![TodoView::Light(LightTask::RearmRead)]
            &&& c.backlight.dev is None ==> asked.act is None && asked.next.len() == 0
            &&& read.backlight.set == reply.light() && read.backlight.saved == c.backlight.saved
        }),
{
}

// --------------------------------------------------------------------------- battery

/// A machine that drains a low battery, with the charger away and settled so, asks for a
/// suspend unless a request stands; a request is taken back where the charger is there or
/// the battery has recovered; otherwise nothing is asked.
pub proof fn low_batteries_ask_for_suspend(
    c: CtxView,
    m: Mode,
    gate: Option<bool>,
    reply: Reply,
)
    requires
        !m.shadow,
    ensures
        ({
            let (e, o) = power_flow::battery_step(c, m, BatteryTask::Check { gate }, reply);
            let low = c.power.low_battery;
            let i = c.inputs;
            &&& e == c
            &&& o.act == Some(Action::<Seq<char>>::RequestSuspend) <==> low && !i.on_ac
                && !c.power.on_ac_settled && !i.suspend_requested
            &&& o.act == Some(Action::<Seq<char>>::WithdrawSuspend) <==> i.suspend_requested && (
            i.on_ac || !low)
            &&& o.act is Some ==> !o.stop
            &&& o.act is None ==> (o.stop <==> gate == Some(false))
        }),
{
}

/// A request counts as standing where it was really written, and as gone where it was
/// really removed. Where a sample of the battery changed neither the flag nor a request,
/// the event ends there.
pub proof fn requests_follow_the_file(c: CtxView, m: Mode, gate: Option<bool>, reply: Reply)
    ensures
        ({
            let (a, x) = power_flow::battery_step(c, m, BatteryTask::Requested { gate }, reply);
            let (b, y) = power_flow::battery_step(c, m, BatteryTask::Withdrawn { gate }, reply);
            &&& a.inputs.suspend_requested == (c.inputs.suspend_requested || reply.yes())
            &&& b.inputs.suspend_requested == (c.inputs.suspend_requested && !reply.yes())
            &&& a.power == c.power && b.power == c.power
            &&& a.inputs.state == c.inputs.state && b.inputs.state == c.inputs.state
            &&& x.stop <==> gate == Some(false) && !reply.yes()
            &&& y.stop <==> gate == Some(false) && !reply.yes()
        }),
{
}

} // verus!
