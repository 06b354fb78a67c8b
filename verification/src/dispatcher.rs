//! The dispatcher: what each event does to the context, in which order its
//! consequences are worked off, and what each of them asks of the world.
//!
//! - A reloaded configuration asserts the current state again and never feeds the
//!   main machine; the active profile is taken in first.
//! - A changed set of monitors leads from the profile over the breadcrumb, GPU advice
//!   and the runtime-PM pin to power policy, and never feeds the main machine.
//! - GPU advice follows charger, platform and override changes.
//! - Power policy follows battery, override and settled-charger changes.
use vstd::prelude::*;

use crate::ctx::{Context, CtxView, GpuView, Inputs, PowerState};
use crate::effectors::{Cmd, Topic};
use crate::event::Event;
use crate::fsm::{world_state, EventKind, State};
use crate::gpu_flow;
use crate::main_flow;
use crate::main_flow::{on_enter, Mode};
use crate::power;
use crate::power::PowerProfile;
use crate::power_flow;
use crate::profile_flow;
use crate::reconcile;
use crate::tasks::{
    as_command, do_now, no_tasks, push_task, Action, BatteryTask, Cause, Entry, Fired,
    GpuTask, LightTask, MainTask, Note, NoteKind, Outcome, OutcomeView, PowerTask, ProfileTask,
    ProfileTodoView, GpuTodoView, ReconcileTask, Reply, Task, Todo, TodoView,
};
use crate::tasks;
use crate::text;

verus! {

// ------------------------------------------------------------------- routing

/// GPU advice follows these kinds.
pub open spec fn advises(kind: EventKind) -> bool {
    ||| kind == EventKind::AcPlugged
    ||| kind == EventKind::AcUnplugged
    ||| kind == EventKind::PlatformProfileChanged
    ||| kind == EventKind::GpuOverrideChanged
}

/// Power policy follows these kinds.
pub open spec fn governs(kind: EventKind) -> bool {
    ||| kind == EventKind::BatteryLowChanged
    ||| kind == EventKind::PowerOverrideChanged
    ||| kind == EventKind::PowerAcSettled
}

/// What follows the update of the context for an event that feeds the main machine.
pub open spec fn following(kind: EventKind) -> Seq<TodoView> {
    (if kind == EventKind::Resumed {
        seq![Task::Light(LightTask::Rearm)]
    } else {
        seq![]
    }) + (if advises(kind) {
        seq![Task::Gpu(GpuTask::Gate(Cause::Event(kind)))]
    } else {
        seq![]
    }) + (if governs(kind) {
        seq![
            Task::Power(PowerTask::Begin),
            Task::Note(NoteKind::Ctx, Cause::Event(kind)),
        ]
    } else {
        seq![]
    }) + seq![Task::Main(MainTask::Evaluate(kind))]
}

/// The power state after the override file changed. The echo of a write of the
/// daemon's own changes nothing; a word that is no profile is ignored.
pub open spec fn override_seen(p: PowerState, word: Option<Seq<char>>) -> PowerState {
    match word {
        None => PowerState { manual: None, manual_base: None, ..p },
        Some(w) => match PowerProfile::of_word(w) {
            Some(profile) => if p.manual == Some(profile) {
                p
            } else {
                PowerState { manual: Some(profile), manual_base: None, ..p }
            },
            None => p,
        },
    }
}

/// The power state after a sample of the battery.
pub open spec fn battery_seen(p: PowerState, pct: power::Percent) -> PowerState {
    PowerState {
        battery_percent: Some(pct),
        low_battery: power::low_after(p.low_battery, pct, p.battery_low_pct as int),
        ..p
    }
}

/// The tasks of adopting somebody else's profile change as an override.
pub open spec fn adopting(m: Mode, profile: PowerProfile) -> Seq<TodoView> {
    (if m.shadow {
        seq![]
    } else {
        seq![Task::Emit(Action::WriteOverride(profile))]
    }) + seq![
        Task::Emit(
            tasks::command(
                m.shadow,
                Cmd::Notify {
                    topic: Topic::Power,
                    body: "Adopted external power change as override: "@ + profile.word(),
                },
            ),
        ),
        Task::Power(PowerTask::Begin),
    ]
}

/// What a change of `platform_profile` does: one of our own is ignored, anything else
/// is adopted as a manual override and never reverted.
pub open spec fn platform_seen(c: CtxView, m: Mode, now: int, value: Option<Seq<char>>) -> (
    CtxView,
    Seq<TodoView>,
) {
    let (own, tracker) = power::self_write_of(c.self_writes, now, value);
    let d = CtxView { self_writes: tracker, ..c };
    if own {
        (d, seq![])
    } else {
        let profile = power::profile_of_value(value);
        (
            power_flow::with_power(
                d,
                PowerState { manual: Some(profile), manual_base: None, ..d.power },
            ),
            adopting(m, profile),
        )
    }
}

/// The context after the power service appeared: everything is pushed to it again.
pub open spec fn service_back(c: CtxView) -> CtxView {
    if c.power.powerd_available {
        c
    } else {
        CtxView {
            power: PowerState {
                powerd_available: true,
                powerd_warned: false,
                applied: None,
                ..c.power
            },
            gpu: GpuView { pinned: None, ..c.gpu },
            ..c
        }
    }
}

/// The context with the charger settled where it is.
pub open spec fn settled(c: CtxView) -> CtxView {
    power_flow::with_power(c, PowerState { on_ac_settled: c.inputs.on_ac, ..c.power })
}

/// The event goes on to feed the main machine. A lid report of a machine that is
/// declared lidless does not.
pub open spec fn feeds(c: CtxView, ev: Event) -> bool {
    match ev {
        Event::ConfigReloaded => false,
        Event::ReconcileTick(_) => false,
        Event::MonitorsChanged => false,
        Event::ProfilesChanged => false,
        Event::Lid(_) => c.inputs.lid_present,
        _ => true,
    }
}

/// What an event changes of the inputs.
pub open spec fn inputs_after(i: Inputs, ev: Event) -> Inputs {
    match ev {
        Event::Lid(closed) => if i.lid_present {
            Inputs { lid_closed: closed, ..i }
        } else {
            i
        },
        Event::Inhibitor { wayland, active } => if wayland {
            Inputs { wayland_inhibitor: active, ..i }
        } else {
            Inputs { logind_inhibitor: active, ..i }
        },
        Event::LockChanged(locked) => Inputs { locked, ..i },
        Event::AcChanged(on_ac) => Inputs { on_ac, ..i },
        Event::SuspendRequestChanged(word) => Inputs { suspend_requested: word is Some, ..i },
        Event::Resumed => Inputs { suspend_requested: false, ..i },
        _ => i,
    }
}

/// What an event changes of the context.
pub open spec fn ctx_after(c: CtxView, m: Mode, now: int, ev: Event) -> CtxView {
    match ev {
        Event::PowerAcSettled => settled(c),
        Event::PowerOverrideChanged(word) => power_flow::with_power(
            c,
            override_seen(c.power, text::opt_string(word)),
        ),
        Event::BatteryPercent(pct) => power_flow::with_power(c, battery_seen(c.power, pct)),
        Event::PlatformProfileChanged(value) => platform_seen(
            c,
            m,
            now,
            text::opt_string(value),
        ).0,
        Event::PowerdAppeared => settled(service_back(c)),
        _ => CtxView { inputs: inputs_after(c.inputs, ev), ..c },
    }
}

/// What an event leads to before anything else.
pub open spec fn first_tasks(c: CtxView, m: Mode, now: int, ev: Event) -> Seq<TodoView> {
    match ev {
        Event::ConfigReloaded => if c.inputs.state == State::Suspending {
            seq![]
        } else {
            seq![
                Task::Profile(ProfileTask::Ingest),
                Task::Main(MainTask::Enter(Entry::Reassert)),
            ]
        },
        Event::ReconcileTick(snap) => seq![Task::Reconcile(ReconcileTask::Begin(snap))],
        Event::MonitorsChanged => seq![Task::Profile(ProfileTask::Choose)],
        Event::ProfilesChanged => seq![Task::Emit(Action::RestartProfileDebounce)],
        Event::MonitorHotplug { .. } => seq![
            Task::Main(MainTask::CountMonitors),
            Task::Emit(Action::RestartProfileDebounce),
        ],
        Event::AcChanged(_) => seq![
            Task::Battery(BatteryTask::Check { gate: None }),
            Task::Emit(Action::RestartPowerSettle),
        ],
        Event::PowerAcSettled => seq![Task::Battery(BatteryTask::Check { gate: None })],
        Event::BatteryPercent(pct) => seq![
            Task::Battery(
                BatteryTask::Check {
                    gate: Some(battery_seen(c.power, pct).low_battery != c.power.low_battery),
                },
            ),
        ],
        Event::PlatformProfileChanged(value) => platform_seen(
            c,
            m,
            now,
            text::opt_string(value),
        ).1,
        Event::TimerExpired => if c.inputs.suspend_requested {
            seq![Task::Main(MainTask::TimerProbe)]
        } else {
            seq![]
        },
        Event::Resumed => if m.shadow {
            seq![]
        } else {
            seq![Task::Emit(Action::ClearSuspendRequest)]
        },
        _ => seq![],
    }
}

/// What an event does: the context afterwards, and what is to be done.
pub open spec fn dispatched(c: CtxView, m: Mode, now: int, ev: Event) -> (CtxView, Seq<TodoView>) {
    (
        ctx_after(c, m, now, ev),
        first_tasks(c, m, now, ev) + (if feeds(c, ev) {
            following(ev.as_kind())
        } else {
            seq![]
        }),
    )
}

/// Adds what follows the update of the context.
fn push_following(out: &mut Vec<Todo>, kind: EventKind)
    ensures
        tasks::todos(final(out)@) == tasks::todos(old(out)@) + following(kind),
{
    let ghost before = tasks::todos(out@);
    if kind == EventKind::Resumed {
        push_task(out, Task::Light(LightTask::Rearm));
    }
    if kind == EventKind::AcPlugged || kind == EventKind::AcUnplugged || kind
        == EventKind::PlatformProfileChanged || kind == EventKind::GpuOverrideChanged {
        push_task(out, Task::Gpu(GpuTask::Gate(Cause::Event(kind))));
    }
    if kind == EventKind::BatteryLowChanged || kind == EventKind::PowerOverrideChanged || kind
        == EventKind::PowerAcSettled {
        push_task(out, Task::Power(PowerTask::Begin));
        push_task(out, Task::Note(NoteKind::Ctx, Cause::Event(kind)));
    }
    push_task(out, Task::Main(MainTask::Evaluate(kind)));
    assert(tasks::todos(out@) =~= before + following(kind));
}

/// Takes in a change of the override file.
fn see_override(p: &mut PowerState, word: &Option<String>)
    ensures
        *final(p) == override_seen(*old(p), text::opt_string(*word)),
{
    match word {
        None => {
            p.manual = None;
            p.manual_base = None;
        },
        Some(w) => {
            match PowerProfile::from_str(w.as_str()) {
                Ok(profile) => {
                    let echo = match p.manual {
                        Some(q) => q == profile,
                        None => false,
                    };
                    if !echo {
                        p.manual = Some(profile);
                        p.manual_base = None;
                    }
                },
                Err(_) => {},
            }
        },
    }
}

/// Takes in a change of `platform_profile`.
fn see_platform(ctx: &mut Context, m: Mode, now: u64, value: &Option<String>) -> (r: Vec<Todo>)
    ensures
        (final(ctx)@, tasks::todos(r@)) == platform_seen(
            old(ctx)@,
            m,
            now as int,
            text::opt_string(*value),
        ),
{
    let mut next = no_tasks();
    if ctx.self_writes.is_self_write(now, text::opt_as_str(value)) {
        return next;
    }
    let profile = power::profile_from_platform_value(text::opt_as_str(value));
    ctx.power.manual = Some(profile);
    ctx.power.manual_base = None;
    if !m.shadow {
        push_task(&mut next, Task::Emit(Action::WriteOverride(profile)));
    }
    let body = text::concat2("Adopted external power change as override: ", profile.as_str());
    push_task(
        &mut next,
        Task::Emit(as_command(m.shadow, Cmd::Notify { topic: Topic::Power, body })),
    );
    push_task(&mut next, Task::Power(PowerTask::Begin));
    assert(tasks::todos(next@) =~= adopting(m, profile));
    next
}

/// Takes in a sample of the battery. Answers whether the low flag flipped.
fn see_battery(p: &mut PowerState, pct: power::Percent) -> (flipped: bool)
    requires
        old(p).battery_low_pct <= 50,
    ensures
        *final(p) == battery_seen(*old(p), pct),
        flipped == (final(p).low_battery != old(p).low_battery),
{
    let low = power::battery_low_step(p.low_battery, pct, p.battery_low_pct);
    let flipped = low != p.low_battery;
    p.battery_percent = Some(pct);
    p.low_battery = low;
    flipped
}

/// Whether an event goes on to feed the main machine.
fn does_feed(ctx: &Context, ev: &Event) -> (r: bool)
    ensures
        r == feeds(ctx@, *ev),
{
    match ev {
        Event::ConfigReloaded => false,
        Event::ReconcileTick(_) => false,
        Event::MonitorsChanged => false,
        Event::ProfilesChanged => false,
        Event::Lid(_) => ctx.inputs.lid_present,
        _ => true,
    }
}

/// Takes an event into the inputs.
fn update_inputs(i: &mut Inputs, ev: &Event)
    ensures
        *final(i) == inputs_after(*old(i), *ev),
{
    match ev {
        Event::Lid(closed) => {
            if i.lid_present {
                i.lid_closed = *closed;
            }
        },
        Event::Inhibitor { wayland, active } => {
            if *wayland {
                i.wayland_inhibitor = *active;
            } else {
                i.logind_inhibitor = *active;
            }
        },
        Event::LockChanged(locked) => {
            i.locked = *locked;
        },
        Event::AcChanged(on_ac) => {
            i.on_ac = *on_ac;
        },
        Event::SuspendRequestChanged(word) => {
            i.suspend_requested = word.is_some();
        },
        Event::Resumed => {
            i.suspend_requested = false;
        },
        _ => {},
    }
}

/// What an event that leaves power policy alone leads to first.
fn plain_tasks(ctx: &Context, m: Mode, ev: &Event) -> (r: Vec<Todo>)
    requires
        !(ev is PowerAcSettled || ev is BatteryPercent || ev is PlatformProfileChanged),
    ensures
        forall|now: int| tasks::todos(r@) == #[trigger] first_tasks(ctx@, m, now, *ev),
{
    let mut next = no_tasks();
    match ev {
        Event::ConfigReloaded => {
            if ctx.inputs.state != State::Suspending {
                push_task(&mut next, Task::Profile(ProfileTask::Ingest));
                push_task(&mut next, Task::Main(MainTask::Enter(Entry::Reassert)));
            }
        },
        Event::ReconcileTick(snap) => {
            push_task(&mut next, Task::Reconcile(ReconcileTask::Begin(*snap)));
        },
        Event::MonitorsChanged => {
            push_task(&mut next, Task::Profile(ProfileTask::Choose));
        },
        Event::ProfilesChanged => {
            push_task(&mut next, Task::Emit(Action::RestartProfileDebounce));
        },
        Event::MonitorHotplug { .. } => {
            push_task(&mut next, Task::Main(MainTask::CountMonitors));
            push_task(&mut next, Task::Emit(Action::RestartProfileDebounce));
        },
        Event::AcChanged(_) => {
            push_task(&mut next, Task::Battery(BatteryTask::Check { gate: None }));
            push_task(&mut next, Task::Emit(Action::RestartPowerSettle));
        },
        Event::TimerExpired => {
            if ctx.inputs.suspend_requested {
                push_task(&mut next, Task::Main(MainTask::TimerProbe));
            }
        },
        Event::Resumed => {
            if !m.shadow {
                push_task(&mut next, Task::Emit(Action::ClearSuspendRequest));
            }
        },
        _ => {},
    }
    assert forall|now: int| tasks::todos(next@) == #[trigger] first_tasks(ctx@, m, now, *ev) by {
        assert(tasks::todos(next@) =~= first_tasks(ctx@, m, now, *ev));
    }
    next
}

/// Takes an event into the context, and lists what it leads to first.
fn take_in(ctx: &mut Context, m: Mode, now: u64, ev: &Event) -> (r: Vec<Todo>)
    requires
        old(ctx)@.wf(),
    ensures
        final(ctx)@ == ctx_after(old(ctx)@, m, now as int, *ev),
        tasks::todos(r@) == first_tasks(old(ctx)@, m, now as int, *ev),
{
    match ev {
        Event::PowerAcSettled => {
            let mut next = no_tasks();
            ctx.power.on_ac_settled = ctx.inputs.on_ac;
            push_task(&mut next, Task::Battery(BatteryTask::Check { gate: None }));
            assert(tasks::todos(next@) =~= first_tasks(old(ctx)@, m, now as int, *ev));
            next
        },
        Event::PowerOverrideChanged(word) => {
            let next = plain_tasks(ctx, m, ev);
            see_override(&mut ctx.power, word);
            next
        },
        Event::BatteryPercent(pct) => {
            let mut next = no_tasks();
            let flipped = see_battery(&mut ctx.power, *pct);
            push_task(&mut next, Task::Battery(BatteryTask::Check { gate: Some(flipped) }));
            assert(tasks::todos(next@) =~= first_tasks(old(ctx)@, m, now as int, *ev));
            next
        },
        Event::PlatformProfileChanged(value) => see_platform(ctx, m, now, value),
        Event::PowerdAppeared => {
            let next = plain_tasks(ctx, m, ev);
            if !ctx.power.powerd_available {
                ctx.power.powerd_available = true;
                ctx.power.powerd_warned = false;
                ctx.power.applied = None;
                ctx.gpu.pinned = None;
            }
            ctx.power.on_ac_settled = ctx.inputs.on_ac;
            next
        },
        _ => {
            let next = plain_tasks(ctx, m, ev);
            update_inputs(&mut ctx.inputs, ev);
            next
        },
    }
}

/// Takes an event in: updates the context and lists what is to be done.
pub fn route(ctx: &mut Context, m: Mode, now: u64, ev: &Event) -> (r: Vec<Todo>)
    requires
        old(ctx)@.wf(),
    ensures
        (final(ctx)@, tasks::todos(r@)) == dispatched(old(ctx)@, m, now as int, *ev),
{
    let feed = does_feed(ctx, ev);
    let mut next = take_in(ctx, m, now, ev);
    if feed {
        push_following(&mut next, ev.kind());
    } else {
        assert(tasks::todos(next@) + Seq::<TodoView>::empty() =~= tasks::todos(next@));
    }
    next
}

// ------------------------------------------------------------------ the machine

/// The dispatcher: the context, and what is still to be done for the event at hand.
#[derive(Debug)]
pub struct Dispatcher {
    pub ctx: Context,
    pub mode: Mode,
    pub todo: Vec<Todo>,
}

/// What a dispatcher holds.
pub struct DispatcherView {
    pub ctx: CtxView,
    pub mode: Mode,
    pub todo: Seq<TodoView>,
}

impl View for Dispatcher {
    type V = DispatcherView;

    open spec fn view(&self) -> DispatcherView {
        DispatcherView { ctx: self.ctx@, mode: self.mode, todo: tasks::todos(self.todo@) }
    }
}

/// What a task comes to.
pub open spec fn task_step(c: CtxView, m: Mode, t: TodoView, now: int, reply: Reply) -> (
    CtxView,
    OutcomeView,
) {
    match t {
        Task::Emit(act) => (c, tasks::doing(act)),
        Task::Note(kind, cause) => (
            c,
            tasks::doing(
                Action::Tell(
                    Note {
                        kind,
                        cause,
                        from: c.inputs.state,
                        to: c.inputs.state,
                        fired: Fired::Nothing,
                    },
                ),
            ),
        ),
        Task::Main(t) => main_flow::main_step(c, m, t, reply),
        Task::Profile(t) => profile_flow::profile_step(c, m, t, reply),
        Task::Power(t) => power_flow::policy_step(c, m, t, now, reply),
        Task::Light(t) => power_flow::light_step(c, m, t, reply),
        Task::Battery(t) => power_flow::battery_step(c, m, t, reply),
        Task::Gpu(t) => gpu_flow::gpu_step(c, m, t, now, reply),
        Task::Reconcile(t) => reconcile::reconcile_step(c, m, t, reply),
    }
}

/// The dispatcher after one step, and the action that it hands out. The reply is the
/// answer to the action that the step before handed out.
pub open spec fn stepped(d: DispatcherView, now: int, reply: Reply) -> (
    DispatcherView,
    Option<Action<Seq<char>>>,
) {
    if d.todo.len() == 0 {
        (d, None)
    } else {
        let (c, o) = task_step(d.ctx, d.mode, d.todo[0], now, reply);
        (
            DispatcherView {
                ctx: c,
                mode: d.mode,
                todo: if o.stop {
                    seq![]
                } else {
                    o.next + d.todo.skip(1)
                },
            },
            o.act,
        )
    }
}

/// The dispatcher with an event taken in.
pub open spec fn receiving(d: DispatcherView, now: int, ev: Event) -> DispatcherView {
    let (c, todo) = dispatched(d.ctx, d.mode, now, ev);
    DispatcherView { ctx: c, mode: d.mode, todo }
}

/// The dispatcher at startup: a request from before is dropped, the state that the
/// world calls for is entered, and the runtime-PM pin is put in place.
pub open spec fn starting(c: CtxView, m: Mode) -> DispatcherView {
    let d = main_flow::with_request(c, false);
    let state = crate::fsm::world_of(d.world());
    let e = main_flow::in_state(d, state);
    DispatcherView {
        ctx: e,
        mode: m,
        todo: (if m.shadow {
            seq![]
        } else {
            seq![Task::Emit(Action::ClearSuspendRequest)]
        }) + main_flow::entering(e, m, state, Entry::Fresh, state, EventKind::Reconcile) + seq![
            Task::Emit(
                Action::Tell(
                    Note {
                        kind: NoteKind::Snapshot,
                        cause: Cause::Startup,
                        from: state,
                        to: state,
                        fired: Fired::Entered(state),
                    },
                ),
            ),
            Task::Gpu(GpuTask::Gate(Cause::Startup)),
        ],
    }
}

/// The context at startup, and the state that the world calls for.
fn first_context(ctx: Context) -> (r: (Context, State))
    requires
        ctx@.wf(),
    ensures
        r.1 == crate::fsm::world_of(main_flow::with_request(ctx@, false).world()),
        r.0@ == main_flow::in_state(main_flow::with_request(ctx@, false), r.1),
        r.0@.wf(),
{
    let ghost before = ctx@;
    let mut ctx = ctx;
    ctx.inputs.suspend_requested = false;
    assert(ctx@ == main_flow::with_request(before, false));
    let state = world_state(&ctx.world());
    ctx.inputs.state = state;
    (ctx, state)
}

/// What is to be done at startup.
fn first_queue(ctx: &Context, mode: Mode, state: State) -> (r: Vec<Todo>)
    ensures
        tasks::todos(r@) == (if mode.shadow {
            seq![]
        } else {
            seq![Task::Emit(Action::ClearSuspendRequest)]
        }) + main_flow::entering(ctx@, mode, state, Entry::Fresh, state, EventKind::Reconcile)
            + seq![
            Task::Emit(
                Action::Tell(
                    Note {
                        kind: NoteKind::Snapshot,
                        cause: Cause::Startup,
                        from: state,
                        to: state,
                        fired: Fired::Entered(state),
                    },
                ),
            ),
            Task::Gpu(GpuTask::Gate(Cause::Startup)),
        ],
{
    let mut todo = no_tasks();
    if !mode.shadow {
        push_task(&mut todo, Task::Emit(Action::ClearSuspendRequest));
    }
    let ghost head = tasks::todos(todo@);
    let mut enter = on_enter(ctx, mode, state, Entry::Fresh, state, EventKind::Reconcile);
    let ghost body = tasks::todos(enter@);
    todo.append(&mut enter);
    assert(tasks::todos(todo@) =~= head + body);
    push_task(
        &mut todo,
        Task::Emit(
            Action::Tell(
                Note {
                    kind: NoteKind::Snapshot,
                    cause: Cause::Startup,
                    from: state,
                    to: state,
                    fired: Fired::Entered(state),
                },
            ),
        ),
    );
    push_task(&mut todo, Task::Gpu(GpuTask::Gate(Cause::Startup)));
    todo
}

/// Takes one task.
fn run_task(ctx: &mut Context, m: Mode, t: Todo, now: u64, reply: &Reply) -> (r: Outcome)
    requires
        old(ctx)@.wf(),
        now + power::ADOPT_SUPPRESS <= u64::MAX,
    ensures
        (final(ctx)@, r@) == task_step(old(ctx)@, m, t@, now as int, *reply),
{
    match t {
        Task::Emit(act) => do_now(act),
        Task::Note(kind, cause) => do_now(
            Action::Tell(
                Note {
                    kind,
                    cause,
                    from: ctx.inputs.state,
                    to: ctx.inputs.state,
                    fired: Fired::Nothing,
                },
            ),
        ),
        Task::Main(t) => main_flow::run_main(ctx, m, t, reply),
        Task::Profile(t) => profile_flow::run_profile(ctx, m, t, reply),
        Task::Power(t) => power_flow::power_policy_check(ctx, m, t, now, reply),
        Task::Light(t) => power_flow::brightness_step(ctx, m, t, reply),
        Task::Battery(t) => power_flow::battery_low_request_check(ctx, m, t, reply),
        Task::Gpu(t) => gpu_flow::run_gpu(ctx, m, t, now, reply),
        Task::Reconcile(t) => reconcile::handle_reconcile_tick(ctx, m, t, reply),
    }
}

proof fn main_keeps(c: CtxView, m: Mode, t: MainTask, reply: Reply)
    requires
        c.wf(),
    ensures
        main_flow::main_step(c, m, t, reply).0.wf(),
{
}

proof fn profile_keeps(c: CtxView, m: Mode, t: ProfileTodoView, reply: Reply)
    requires
        c.wf(),
    ensures
        profile_flow::profile_step(c, m, t, reply).0.wf(),
{
}

proof fn policy_keeps(c: CtxView, m: Mode, t: PowerTask, now: int, reply: Reply)
    requires
        c.wf(),
    ensures
        power_flow::policy_step(c, m, t, now, reply).0.wf(),
{
}

proof fn light_keeps(c: CtxView, m: Mode, t: LightTask, reply: Reply)
    requires
        c.wf(),
    ensures
        power_flow::light_step(c, m, t, reply).0.wf(),
{
}

proof fn battery_keeps(c: CtxView, m: Mode, t: BatteryTask, reply: Reply)
    requires
        c.wf(),
    ensures
        power_flow::battery_step(c, m, t, reply).0.wf(),
{
}

proof fn gpu_keeps(c: CtxView, m: Mode, t: GpuTodoView, now: int, reply: Reply)
    requires
        c.wf(),
    ensures
        gpu_flow::gpu_step(c, m, t, now, reply).0.wf(),
{
}

proof fn reconcile_keeps(c: CtxView, m: Mode, t: ReconcileTask, reply: Reply)
    requires
        c.wf(),
    ensures
        reconcile::reconcile_step(c, m, t, reply).0.wf(),
{
}

/// No step loses what every context satisfies.
pub proof fn steps_keep_the_context_wf(c: CtxView, m: Mode, t: TodoView, now: int, reply: Reply)
    requires
        c.wf(),
    ensures
        task_step(c, m, t, now, reply).0.wf(),
{
    match t {
        Task::Emit(_) => {},
        Task::Note(_, _) => {},
        Task::Main(t) => main_keeps(c, m, t, reply),
        Task::Profile(t) => profile_keeps(c, m, t, reply),
        Task::Power(t) => policy_keeps(c, m, t, now, reply),
        Task::Light(t) => light_keeps(c, m, t, reply),
        Task::Battery(t) => battery_keeps(c, m, t, reply),
        Task::Gpu(t) => gpu_keeps(c, m, t, now, reply),
        Task::Reconcile(t) => reconcile_keeps(c, m, t, reply),
    }
}

/// No event loses what every context satisfies.
pub proof fn events_keep_the_context_wf(c: CtxView, m: Mode, now: int, ev: Event)
    requires
        c.wf(),
    ensures
        dispatched(c, m, now, ev).0.wf(),
{
}

impl Dispatcher {
    /// A dispatcher at startup.
    pub fn start(ctx: Context, mode: Mode) -> (r: Dispatcher)
        requires
            ctx@.wf(),
        ensures
            r@ == starting(ctx@, mode),
            r@.ctx.wf(),
    {
        let (ctx, state) = first_context(ctx);
        let todo = first_queue(&ctx, mode, state);
        Dispatcher { ctx, mode, todo }
    }

    /// Whether nothing is left to be done, so that the next event can be taken in.
    pub fn is_idle(&self) -> (r: bool)
        ensures
            r == (self@.todo.len() == 0),
    {
        self.todo.len() == 0
    }

    /// Takes an event in. Whatever was left of the one before is dropped.
    pub fn receive(&mut self, now: u64, ev: &Event)
        requires
            old(self)@.ctx.wf(),
        ensures
            final(self)@ == receiving(old(self)@, now as int, *ev),
            final(self)@.ctx.wf(),
    {
        proof {
            events_keep_the_context_wf(self@.ctx, self.mode, now as int, *ev);
        }
        self.todo = route(&mut self.ctx, self.mode, now, ev);
    }

    /// Takes one step. The reply answers the action that the step before handed out.
    pub fn step(&mut self, now: u64, reply: &Reply) -> (r: Option<Action<String>>)
        requires
            old(self)@.ctx.wf(),
            now + power::ADOPT_SUPPRESS <= u64::MAX,
        ensures
            final(self)@ == stepped(old(self)@, now as int, *reply).0,
            match r {
                Some(a) => stepped(old(self)@, now as int, *reply).1 == Some(a@),
                None => stepped(old(self)@, now as int, *reply).1 is None,
            },
            final(self)@.ctx.wf(),
    {
        if self.todo.len() == 0 {
            return None;
        }
        let ghost before = self.todo@;
        let t = self.todo.remove(0);
        proof {
            steps_keep_the_context_wf(self@.ctx, self.mode, t@, now as int, *reply);
            assert(tasks::todos(before)[0] == t@);
            assert(tasks::todos(self.todo@) =~= tasks::todos(before).skip(1));
        }
        let o = run_task(&mut self.ctx, self.mode, t, now, reply);
        let Outcome { next, act, stop } = o;
        if stop {
            self.todo = no_tasks();
        } else {
            let mut next = next;
            let ghost head = tasks::todos(next@);
            let ghost rest = tasks::todos(self.todo@);
            next.append(&mut self.todo);
            assert(tasks::todos(next@) =~= head + rest);
            self.todo = next;
        }
        act
    }
}

} // verus!
