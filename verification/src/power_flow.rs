//! Power policy at work: the policy check, brightness, the battery's own suspend
//! request, and the power service.
use vstd::prelude::*;

use crate::ctx::{Context, CtxView, LightView, PowerState};
use crate::effectors::{Cmd, Topic};
use crate::main_flow;
use crate::main_flow::Mode;
use crate::power;
use crate::power_policy;
use crate::power_policy::{BrightnessStep, OverrideOutcome};
use crate::tasks::{
    as_command, ask, be_quiet, end_event, lead_to, lead_to_one, no_tasks, push_task, Action,
    BatteryTask, LightTask, Outcome, OutcomeView, PowerTask, Reply, Task, TodoView,
};
use crate::tasks;
use crate::text;

verus! {

/// The context with another power state.
pub open spec fn with_power(c: CtxView, power: PowerState) -> CtxView {
    CtxView { power, ..c }
}

/// The power service took the call, or is gone until it appears again.
pub open spec fn service_gone(p: PowerState) -> PowerState {
    PowerState { powerd_available: false, powerd_warned: true, ..p }
}

/// The tasks of a lapsed override: the file goes, and the user hears of it.
pub open spec fn expiry_tasks(c: CtxView, m: Mode, outcome: OverrideOutcome) -> Seq<TodoView> {
    if outcome == OverrideOutcome::Expired {
        (if m.shadow {
            seq![]
        } else {
            seq![Task::Emit(Action::RemoveOverride)]
        }) + seq![
            Task::Emit(
                tasks::command(
                    m.shadow,
                    Cmd::Notify {
                        topic: Topic::Power,
                        body: power_policy::expiry_text(c.power.policy.at(c.base()), c.base()),
                    },
                ),
            ),
        ]
    } else {
        seq![]
    }
}

/// What the parts of a policy check come to: the override is checked, the wanted
/// profile is applied where it is not yet, and the brightness follows the edges.
pub open spec fn policy_step(c: CtxView, m: Mode, t: PowerTask, now: int, reply: Reply) -> (
    CtxView,
    OutcomeView,
) {
    match t {
        PowerTask::Begin => {
            let (p, outcome) = power_policy::override_checked(c.power, c.base());
            (
                with_power(c, p),
                tasks::leading(
                    expiry_tasks(c, m, outcome) + seq![Task::Power(PowerTask::Apply), Task::Power(PowerTask::Edges)],
                ),
            )
        },
        PowerTask::Apply => {
            let want = c.wanted_profile();
            if c.power.applied == Some(want) || !c.power.powerd_available {
                (c, tasks::quiet())
            } else {
                let d = CtxView { self_writes: power::registered(c.self_writes, now, want), ..c };
                if m.shadow {
                    (
                        with_power(d, PowerState { applied: Some(want), ..d.power }),
                        tasks::quiet(),
                    )
                } else {
                    (d, tasks::asking(Action::ApplyPower(want), Task::Power(PowerTask::Applied(want))))
                }
            }
        },
        PowerTask::Applied(want) => (
            with_power(
                c,
                if reply.yes() {
                    PowerState { applied: Some(want), ..c.power }
                } else {
                    service_gone(c.power)
                },
            ),
            tasks::quiet(),
        ),
        PowerTask::Edges => (
            with_power(c, PowerState { last_base: Some(c.base()), ..c.power }),
            tasks::leading(light_tasks(power_policy::steps_between(c.power.last_base, c.base()))),
        ),
    }
}

/// A brightness step each.
pub open spec fn light_tasks(steps: Seq<BrightnessStep>) -> Seq<TodoView> {
    Seq::new(steps.len(), |i: int| Task::Light(LightTask::Begin(steps[i])))
}

fn begin_policy(ctx: &mut Context, m: Mode) -> (r: Outcome)
    ensures
        forall|now: int, reply: Reply|
            (final(ctx)@, r@) == #[trigger] policy_step(old(ctx)@, m, PowerTask::Begin, now, reply),
{
    let base = ctx.base_state();
    let outcome = power_policy::check_override(&mut ctx.power, base);
    let mut next = no_tasks();
    if outcome == OverrideOutcome::Expired {
        if !m.shadow {
            push_task(&mut next, Task::Emit(Action::RemoveOverride));
        }
        let body = power_policy::expiry_message(ctx.power.policy.for_base(base), base);
        push_task(
            &mut next,
            Task::Emit(as_command(m.shadow, Cmd::Notify { topic: Topic::Power, body })),
        );
    }
    assert(tasks::todos(next@) =~= expiry_tasks(old(ctx)@, m, outcome));
    push_task(&mut next, Task::Power(PowerTask::Apply));
    push_task(&mut next, Task::Power(PowerTask::Edges));
    assert(tasks::todos(next@) =~= expiry_tasks(old(ctx)@, m, outcome) + seq![
        Task::Power(PowerTask::Apply),
        Task::Power(PowerTask::Edges),
    ]);
    lead_to(next)
}

/// Asks the power service for a profile, unless it is applied already. The expected
/// values are registered before the call.
fn apply_power_profile(ctx: &mut Context, m: Mode, now: u64) -> (r: Outcome)
    requires
        now + power::ADOPT_SUPPRESS <= u64::MAX,
    ensures
        forall|reply: Reply|
            (final(ctx)@, r@) == #[trigger] policy_step(
                old(ctx)@,
                m,
                PowerTask::Apply,
                now as int,
                reply,
            ),
{
    let want = ctx.desired_profile();
    let done = match ctx.power.applied {
        Some(p) => p == want,
        None => false,
    };
    if done || !ctx.power.powerd_available {
        return be_quiet();
    }
    ctx.self_writes.register(now, want);
    if m.shadow {
        ctx.power.applied = Some(want);
        be_quiet()
    } else {
        ask(Action::ApplyPower(want), Task::Power(PowerTask::Applied(want)))
    }
}

fn follow_edges(ctx: &mut Context) -> (r: Outcome)
    ensures
        forall|m: Mode, now: int, reply: Reply|
            (final(ctx)@, r@) == #[trigger] policy_step(
                old(ctx)@,
                m,
                PowerTask::Edges,
                now,
                reply,
            ),
{
    let base = ctx.base_state();
    let steps = power_policy::brightness_edges(&mut ctx.power, base);
    let mut next = no_tasks();
    let mut i: usize = 0;
    assert(light_tasks(steps@.take(0)) =~= Seq::<TodoView>::empty());
    while i < steps.len()
        invariant
            i <= steps@.len(),
            tasks::todos(next@) == light_tasks(steps@.take(i as int)),
        decreases steps@.len() - i,
    {
        push_task(&mut next, Task::Light(LightTask::Begin(steps[i])));
        assert(tasks::todos(next@) =~= light_tasks(steps@.take(i + 1)));
        i += 1;
    }
    assert(steps@.take(steps@.len() as int) =~= steps@);
    lead_to(next)
}

/// Takes one step of a policy check.
pub fn power_policy_check(ctx: &mut Context, m: Mode, t: PowerTask, now: u64, reply: &Reply) -> (r:
    Outcome)
    requires
        now + power::ADOPT_SUPPRESS <= u64::MAX,
    ensures
        (final(ctx)@, r@) == policy_step(old(ctx)@, m, t, now as int, *reply),
{
    match t {
        PowerTask::Begin => begin_policy(ctx, m),
        PowerTask::Apply => apply_power_profile(ctx, m, now),
        PowerTask::Applied(want) => {
            if reply.is_yes() {
                ctx.power.applied = Some(want);
            } else {
                ctx.power.powerd_available = false;
                ctx.power.powerd_warned = true;
            }
            be_quiet()
        },
        PowerTask::Edges => follow_edges(ctx),
    }
}

// ---------------------------------------------------------------- brightness

/// The context with another backlight.
pub open spec fn with_light(c: CtxView, backlight: LightView) -> CtxView {
    CtxView { backlight, ..c }
}

/// What the parts of a brightness step come to: the level is read, the step decides,
/// and what it decides is written where there is a backlight and a session.
pub open spec fn light_step(c: CtxView, m: Mode, t: LightTask, reply: Reply) -> (
    CtxView,
    OutcomeView,
) {
    match t {
        LightTask::Begin(step) => (
            c,
            match c.backlight.dev {
                Some(dev) => tasks::asking(Action::ReadBrightness(dev), Task::Light(LightTask::Read(step))),
                None => tasks::leading(seq![Task::Light(LightTask::Read(step))]),
            },
        ),
        LightTask::Read(step) => {
            let (light, write) = power_policy::stepped(c.backlight, step, reply.light());
            (
                with_light(c, light),
                match write {
                    Some(v) => tasks::leading(seq![Task::Light(LightTask::Write(v))]),
                    None => tasks::quiet(),
                },
            )
        },
        LightTask::Write(v) => {
            let level = power_policy::written_level(v, c.backlight.max);
            match c.backlight.dev {
                Some(dev) => if !m.session {
                    (c, tasks::quiet())
                } else if m.shadow {
                    (with_light(c, LightView { set: Some(level), ..c.backlight }), tasks::quiet())
                } else {
                    (
                        c,
                        tasks::asking(
                            Action::SetBrightness { dev, level },
                            Task::Light(LightTask::Written(level)),
                        ),
                    )
                },
                None => (c, tasks::quiet()),
            }
        },
        LightTask::Written(level) => (
            if reply.yes() {
                with_light(c, LightView { set: Some(level), ..c.backlight })
            } else {
                c
            },
            tasks::quiet(),
        ),
        LightTask::Rearm => (
            c,
            match c.backlight.dev {
                Some(dev) => tasks::asking(Action::ReadBrightness(dev), Task::Light(LightTask::RearmRead)),
                None => tasks::quiet(),
            },
        ),
        LightTask::RearmRead => (
            with_light(c, LightView { set: reply.light(), ..c.backlight }),
            tasks::quiet(),
        ),
    }
}

/// Takes one step of a brightness change.
pub fn brightness_step(ctx: &mut Context, m: Mode, t: LightTask, reply: &Reply) -> (r: Outcome)
    requires
        old(ctx)@.backlight.wf(),
    ensures
        (final(ctx)@, r@) == light_step(old(ctx)@, m, t, *reply),
{
    match t {
        LightTask::Begin(step) => {
            match &ctx.backlight.dev {
                Some(dev) => ask(Action::ReadBrightness(dev.clone()), Task::Light(LightTask::Read(step))),
                None => lead_to_one(Task::Light(LightTask::Read(step))),
            }
        },
        LightTask::Read(step) => {
            let level = reply.level();
            let write = match step {
                BrightnessStep::SaveAndCap => power_policy::brightness_save_and_cap(
                    &mut ctx.backlight,
                    level,
                ),
                BrightnessStep::Cap => power_policy::brightness_cap(&mut ctx.backlight, level),
                BrightnessStep::Restore => power_policy::brightness_restore(
                    &mut ctx.backlight,
                    level,
                ),
            };
            match write {
                Some(v) => lead_to_one(Task::Light(LightTask::Write(v))),
                None => be_quiet(),
            }
        },
        LightTask::Write(v) => {
            let dev = text::opt_clone(&ctx.backlight.dev);
            match dev {
                Some(dev) => {
                    if !m.session {
                        return be_quiet();
                    }
                    let level = power_policy::clamp_level(v, ctx.backlight.max);
                    if m.shadow {
                        ctx.backlight.set = Some(level);
                        be_quiet()
                    } else {
                        ask(Action::SetBrightness { dev, level }, Task::Light(LightTask::Written(level)))
                    }
                },
                None => be_quiet(),
            }
        },
        LightTask::Written(level) => {
            if reply.is_yes() {
                ctx.backlight.set = Some(level);
            }
            be_quiet()
        },
        LightTask::Rearm => {
            match &ctx.backlight.dev {
                Some(dev) => ask(Action::ReadBrightness(dev.clone()), Task::Light(LightTask::RearmRead)),
                None => be_quiet(),
            }
        },
        LightTask::RearmRead => {
            ctx.backlight.set = reply.level();
            be_quiet()
        },
    }
}

// ------------------------------------------------------------- battery running low

/// What the daemon does about its own suspend request.
#[derive(Debug, Clone, Copy, PartialEq, Eq, Structural)]
pub enum BatteryLowAction {
    Request,
    Withdraw,
    Hold,
}

/// What is to be done about a low battery. A request needs a battery that really is
/// being drained: both the raw and the settled charger must be off. A standing one
/// goes the moment its reason is gone.
pub open spec fn battery_action(
    low_battery: bool,
    on_ac: bool,
    on_ac_settled: bool,
    standing: bool,
) -> BatteryLowAction {
    if low_battery && !on_ac && !on_ac_settled && !standing {
        BatteryLowAction::Request
    } else if standing && (on_ac || !low_battery) {
        BatteryLowAction::Withdraw
    } else {
        BatteryLowAction::Hold
    }
}

/// What is to be done about a low battery.
pub fn battery_low_action(
    low_battery: bool,
    on_ac: bool,
    on_ac_settled: bool,
    request_standing: bool,
) -> (r: BatteryLowAction)
    ensures
        r == battery_action(low_battery, on_ac, on_ac_settled, request_standing),
{
    if low_battery && !on_ac && !on_ac_settled && !request_standing {
        BatteryLowAction::Request
    } else if request_standing && (on_ac || !low_battery) {
        BatteryLowAction::Withdraw
    } else {
        BatteryLowAction::Hold
    }
}

/// The end of a battery check: where the battery did not flip and nothing changed,
/// there never was an event.
pub open spec fn battery_done(gate: Option<bool>, changed: bool) -> OutcomeView {
    if gate == Some(false) && !changed {
        tasks::ending()
    } else {
        tasks::quiet()
    }
}

/// What the parts of a battery check come to. The context follows only what really
/// happened to the request file: one that could not be written stands for nothing,
/// and one that belongs to somebody else is not the daemon's to take back.
pub open spec fn battery_step(c: CtxView, m: Mode, t: BatteryTask, reply: Reply) -> (
    CtxView,
    OutcomeView,
) {
    match t {
        BatteryTask::Check { gate } => (
            c,
            match battery_action(
                c.power.low_battery,
                c.inputs.on_ac,
                c.power.on_ac_settled,
                c.inputs.suspend_requested,
            ) {
                BatteryLowAction::Request => if m.shadow {
                    battery_done(gate, false)
                } else {
                    tasks::asking(Action::RequestSuspend, Task::Battery(BatteryTask::Requested { gate }))
                },
                BatteryLowAction::Withdraw => if m.shadow {
                    battery_done(gate, false)
                } else {
                    tasks::asking(Action::WithdrawSuspend, Task::Battery(BatteryTask::Withdrawn { gate }))
                },
                BatteryLowAction::Hold => battery_done(gate, false),
            },
        ),
        BatteryTask::Requested { gate } => (
            if reply.yes() {
                main_flow::with_request(c, true)
            } else {
                c
            },
            battery_done(gate, reply.yes()),
        ),
        BatteryTask::Withdrawn { gate } => (
            if reply.yes() {
                main_flow::with_request(c, false)
            } else {
                c
            },
            battery_done(gate, reply.yes()),
        ),
    }
}

fn finish_battery(gate: Option<bool>, changed: bool) -> (r: Outcome)
    ensures
        r@ == battery_done(gate, changed),
{
    match gate {
        Some(flipped) => {
            if !flipped && !changed {
                end_event()
            } else {
                be_quiet()
            }
        },
        None => be_quiet(),
    }
}

/// Takes one step of a battery check.
pub fn battery_low_request_check(ctx: &mut Context, m: Mode, t: BatteryTask, reply: &Reply) -> (r: Outcome)
    ensures
        (final(ctx)@, r@) == battery_step(old(ctx)@, m, t, *reply),
{
    match t {
        BatteryTask::Check { gate } => {
            match battery_low_action(
                ctx.power.low_battery,
                ctx.inputs.on_ac,
                ctx.power.on_ac_settled,
                ctx.inputs.suspend_requested,
            ) {
                BatteryLowAction::Request => {
                    if m.shadow {
                        finish_battery(gate, false)
                    } else {
                        ask(Action::RequestSuspend, Task::Battery(BatteryTask::Requested { gate }))
                    }
                },
                BatteryLowAction::Withdraw => {
                    if m.shadow {
                        finish_battery(gate, false)
                    } else {
                        ask(Action::WithdrawSuspend, Task::Battery(BatteryTask::Withdrawn { gate }))
                    }
                },
                BatteryLowAction::Hold => finish_battery(gate, false),
            }
        },
        BatteryTask::Requested { gate } => {
            let ok = reply.is_yes();
            if ok {
                ctx.inputs.suspend_requested = true;
            }
            finish_battery(gate, ok)
        },
        BatteryTask::Withdrawn { gate } => {
            let ok = reply.is_yes();
            if ok {
                ctx.inputs.suspend_requested = false;
            }
            finish_battery(gate, ok)
        },
    }
}

// ---------------------------------------------------------------------- laws

/// The daemon never asks for a suspend of its own while the charger is plugged in,
/// settled or not.
pub proof fn no_request_on_the_charger(
    low_battery: bool,
    on_ac: bool,
    on_ac_settled: bool,
    standing: bool,
)
    requires
        on_ac || on_ac_settled,
    ensures
        battery_action(low_battery, on_ac, on_ac_settled, standing) != BatteryLowAction::Request,
{
}

/// A standing request is taken back as soon as the charger is plugged in or the
/// battery has recovered.
pub proof fn request_goes_with_its_reason(low_battery: bool, on_ac: bool, on_ac_settled: bool)
    requires
        on_ac || !low_battery,
    ensures
        battery_action(low_battery, on_ac, on_ac_settled, true) == BatteryLowAction::Withdraw,
{
}

/// A machine that is still being drained keeps its request, and one that has none and
/// runs low makes one: asking again changes nothing.
pub proof fn draining_machine_requests_once(on_ac_settled: bool)
    ensures
        battery_action(true, false, on_ac_settled, true) == BatteryLowAction::Hold,
        battery_action(true, false, false, false) == BatteryLowAction::Request,
{
}

/// A profile that is applied already is not applied again, and a power service that
/// is gone is not called.
pub proof fn policy_apply_is_idempotent(c: CtxView, m: Mode, now: int, reply: Reply)
    requires
        c.power.applied == Some(c.wanted_profile()) || !c.power.powerd_available,
    ensures
        policy_step(c, m, PowerTask::Apply, now, reply) == (c, tasks::quiet()),
{
}

/// The context after a whole policy check. The power service answers with `reply` where
/// it is called.
pub open spec fn policy_checked(c: CtxView, m: Mode, now: int, reply: Reply) -> CtxView {
    let begun = policy_step(c, m, PowerTask::Begin, now, Reply::Nothing).0;
    let (asked, outcome) = policy_step(begun, m, PowerTask::Apply, now, Reply::Nothing);
    let applied = if outcome.act is Some {
        policy_step(asked, m, PowerTask::Applied(begun.wanted_profile()), now, reply).0
    } else {
        asked
    };
    policy_step(applied, m, PowerTask::Edges, now, Reply::Nothing).0
}

/// Nothing is left for a policy check to do: the override stands as it should, the wanted
/// profile is applied or the power service is gone, and the base state is known.
pub open spec fn policy_settled(c: CtxView) -> bool {
    &&& power_policy::override_checked(c.power, c.base()) == (c.power, OverrideOutcome::Untouched)
    &&& c.power.applied == Some(c.wanted_profile()) || !c.power.powerd_available
    &&& c.power.last_base == Some(c.base())
}

/// A policy check with nothing left to do leaves the context as it is, and leads to no
/// action: nothing is applied, said, deleted or dimmed.
pub proof fn settled_policy_rests(c: CtxView, m: Mode, now: int, reply: Reply)
    requires
        policy_settled(c),
    ensures
        policy_step(c, m, PowerTask::Begin, now, reply) == (
            c,
            tasks::leading(seq![Task::Power(PowerTask::Apply), Task::Power(PowerTask::Edges)]),
        ),
        policy_step(c, m, PowerTask::Apply, now, reply) == (c, tasks::quiet()),
        policy_step(c, m, PowerTask::Edges, now, reply) == (c, tasks::quiet()),
        policy_checked(c, m, now, reply) == c,
{
    let steps = power_policy::steps_between(c.power.last_base, c.base());
    assert(expiry_tasks(c, m, OverrideOutcome::Untouched) + seq![
        Task::Power(PowerTask::Apply),
        Task::Power(PowerTask::Edges),
    ] =~= seq![Task::Power(PowerTask::Apply), Task::Power(PowerTask::Edges)]);
    power_policy::no_edge_no_brightness(c.base());
    assert(light_tasks(steps) =~= seq![]);
}

/// A policy check is idempotent: after one, whatever the power service answered and
/// whatever the brightness steps made of the backlight, a second leaves the context as it
/// is and leads to no action.
pub proof fn policy_check_is_idempotent(
    c: CtxView,
    m: Mode,
    now: int,
    reply: Reply,
    light: LightView,
    later: int,
    answer: Reply,
)
    ensures
        ({
            let d = with_light(policy_checked(c, m, now, reply), light);
            &&& policy_settled(d)
            &&& policy_step(d, m, PowerTask::Begin, later, answer) == (
                d,
                tasks::leading(
                    seq![Task::Power(PowerTask::Apply), Task::Power(PowerTask::Edges)],
                ),
            )
            &&& policy_step(d, m, PowerTask::Apply, later, answer) == (d, tasks::quiet())
            &&& policy_step(d, m, PowerTask::Edges, later, answer) == (d, tasks::quiet())
            &&& policy_checked(d, m, later, answer) == d
        }),
{
    let d = with_light(policy_checked(c, m, now, reply), light);
    settled_policy_rests(d, m, later, answer);
}

} // verus!
