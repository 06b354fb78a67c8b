//! Every event comes to an end, whatever the world answers.
use vstd::prelude::*;

use crate::ctx::{CtxView, Inputs};
use crate::dispatcher;
use crate::dispatcher::DispatcherView;
use crate::effectors::Cmd;
use crate::event::ReconcileSnapshot;
use crate::fsm::{EventKind, State};
use crate::gpu_flow;
use crate::main_flow;
use crate::main_flow::Mode;
use crate::power_flow;
use crate::power_policy;
use crate::profile_flow;
use crate::reconcile;
use crate::safety;
use crate::tasks;
use crate::tasks::{
    Action, BatteryTask, Cause, Entry, GpuTask, GpuTodoView, LightTask, MainTask, NoteKind,
    OutcomeView, PowerTask, ProfileTask, ProfileTodoView, ReconcileTask, Reply, Task, TodoView,
};

verus! {

// --------------------------------------------------------------------- measures

/// How many steps a task is away from a list of profiles that it still has to load and
/// choose from. Such a list can bring any number of hooks.
pub open spec fn loads(t: TodoView) -> nat {
    match t {
        Task::Profile(ProfileTask::Choose) => 3,
        Task::Profile(ProfileTask::ChooseListed) => 2,
        Task::Profile(ProfileTask::ChooseLoaded(_)) => 1,
        _ => 0,
    }
}

pub open spec fn main_work(t: MainTask) -> nat {
    match t {
        MainTask::Enter(_) => 11,
        MainTask::Evaluate(_) => 11,
        MainTask::SuspendTail { .. } => 8,
        MainTask::LockerProbed { .. } => 7,
        MainTask::AwaitLock { .. } => 6,
        MainTask::LockAwaited { .. } => 5,
        MainTask::LockerConfirmed { .. } => 4,
        MainTask::DoSuspend { .. } => 2,
        MainTask::StartGrace { .. } => 2,
        MainTask::TimerProbe => 2,
        MainTask::CountMonitors => 2,
        _ => 1,
    }
}

pub open spec fn profile_work(t: ProfileTodoView) -> nat {
    match t {
        ProfileTask::Ingest => 3,
        ProfileTask::IngestNamed => 2,
        ProfileTask::Apply(p) => p.inner.hooks.len() + 4,
        ProfileTask::ApplyProbed(p) => p.inner.hooks.len() + 3,
        ProfileTask::ApplyRepointed(p) => p.inner.hooks.len() + 2,
        _ => 1,
    }
}

pub open spec fn power_work(t: PowerTask) -> nat {
    match t {
        PowerTask::Begin => 18,
        PowerTask::Edges => 13,
        PowerTask::Apply => 2,
        PowerTask::Applied(_) => 1,
    }
}

pub open spec fn light_work(t: LightTask) -> nat {
    match t {
        LightTask::Begin(_) => 4,
        LightTask::Read(_) => 3,
        LightTask::Write(_) => 2,
        LightTask::Rearm => 2,
        _ => 1,
    }
}

pub open spec fn gpu_work(t: GpuTodoView) -> nat {
    match t {
        GpuTask::Gate(_) => 11,
        GpuTask::GateListed(_) => 10,
        GpuTask::GateLoaded(_, _) => 9,
        GpuTask::Advise(_, _) => 8,
        GpuTask::AdviseSession(_, _) => 7,
        GpuTask::AdviseReason(_, _) => 6,
        GpuTask::AdviseInputs(_, _) => 5,
        GpuTask::AdviseRead(_, _) => 4,
        GpuTask::PinRead(_) => 3,
        GpuTask::Pin(_) => 2,
        GpuTask::PinSet(_) => 1,
    }
}

pub open spec fn reconcile_work(t: ReconcileTask) -> nat {
    match t {
        ReconcileTask::Begin(_) => 43,
        ReconcileTask::Probed(_) => 42,
        ReconcileTask::AfterRepair(_) => 8,
        ReconcileTask::Enforce(_) => 4,
    }
}

/// More than all that a task leads to, lists of profiles aside.
pub open spec fn work(t: TodoView) -> nat {
    match t {
        Task::Emit(_) => 1,
        Task::Note(_, _) => 1,
        Task::Main(t) => main_work(t),
        Task::Profile(t) => profile_work(t),
        Task::Power(t) => power_work(t),
        Task::Light(t) => light_work(t),
        Task::Battery(t) => if t is Check {
            2
        } else {
            1
        },
        Task::Gpu(t) => gpu_work(t),
        Task::Reconcile(t) => reconcile_work(t),
    }
}

/// The lists that a queue still has to load.
pub open spec fn loads_in(s: Seq<TodoView>) -> nat
    decreases s.len(),
{
    if s.len() == 0 {
        0
    } else {
        loads(s[0]) + loads_in(s.skip(1))
    }
}

/// The work in a queue.
pub open spec fn work_in(s: Seq<TodoView>) -> nat
    decreases s.len(),
{
    if s.len() == 0 {
        0
    } else {
        work(s[0]) + work_in(s.skip(1))
    }
}

proof fn lemma_sum(a: Seq<TodoView>, b: Seq<TodoView>)
    ensures
        loads_in(a + b) == loads_in(a) + loads_in(b),
        work_in(a + b) == work_in(a) + work_in(b),
    decreases a.len(),
{
    if a.len() == 0 {
        assert(a + b =~= b);
    } else {
        lemma_sum(a.skip(1), b);
        assert((a + b).skip(1) =~= a.skip(1) + b);
    }
}

proof fn lemma_none()
    ensures
        loads_in(seq![]) == 0,
        work_in(seq![]) == 0,
{
}

proof fn lemma_one(t: TodoView)
    ensures
        loads_in(seq![t]) == loads(t),
        work_in(seq![t]) == work(t),
{
    reveal_with_fuel(loads_in, 2);
    reveal_with_fuel(work_in, 2);
    assert(seq![t].skip(1) =~= Seq::<TodoView>::empty());
}

proof fn lemma_two(t: TodoView, u: TodoView)
    ensures
        loads_in(seq![t, u]) == loads(t) + loads(u),
        work_in(seq![t, u]) == work(t) + work(u),
{
    lemma_one(u);
    assert(seq![t, u].skip(1) =~= seq![u]);
}

/// Neither list nor more work than this.
pub open spec fn at_most(s: Seq<TodoView>, n: nat) -> bool {
    loads_in(s) == 0 && work_in(s) <= n
}

// -------------------------------------------------------------------------- flows

proof fn lemma_edp(c: CtxView, m: Mode, on: bool)
    ensures
        at_most(main_flow::edp_tasks(c, m, on), 1),
{
    lemma_none();
    let s = main_flow::edp_tasks(c, m, on);
    if s.len() > 0 {
        lemma_one(s[0]);
        assert(s =~= seq![s[0]]);
    }
}

proof fn lemma_entering(
    c: CtxView,
    m: Mode,
    state: State,
    entry: Entry,
    from: State,
    kind: EventKind,
)
    ensures
        at_most(main_flow::entering(c, m, state, entry, from, kind), 9),
{
    let cancel: TodoView = Task::Emit(Action::CancelGraceTimer);
    lemma_one(cancel);
    match state {
        State::LidOpen => {
            lemma_edp(c, m, true);
            lemma_sum(seq![cancel], main_flow::edp_tasks(c, m, true));
        },
        State::Docked => {
            lemma_edp(c, m, false);
            lemma_sum(seq![cancel], main_flow::edp_tasks(c, m, false));
        },
        State::Deferred => {
            let panel = main_flow::edp_tasks(c, m, false);
            let pause: TodoView = Task::Emit(
                tasks::command(m.shadow, Cmd::PauseMedia),
            );
            lemma_edp(c, m, false);
            lemma_one(pause);
            lemma_sum(seq![cancel], panel);
            lemma_sum(seq![cancel] + panel, seq![pause]);
        },
        State::Countdown => {
            let grace: TodoView = Task::Main(
                MainTask::StartGrace { fresh: entry == Entry::Fresh },
            );
            lemma_edp(c, m, false);
            lemma_one(grace);
            lemma_sum(main_flow::edp_tasks(c, m, false), seq![grace]);
        },
        State::Suspending => {
            lemma_two(cancel, Task::Main(MainTask::SuspendTail { from, kind }));
        },
    }
}

proof fn lemma_main(c: CtxView, m: Mode, t: MainTask, reply: Reply)
    ensures
        at_most(main_flow::main_step(c, m, t, reply).1.next, (main_work(t) - 1) as nat),
{
    lemma_none();
    let next = main_flow::main_step(c, m, t, reply).1.next;
    match t {
        MainTask::Enter(entry) => {
            lemma_entering(c, m, c.inputs.state, entry, c.inputs.state, EventKind::Reconcile);
        },
        MainTask::Evaluate(kind) => {
            let from = c.inputs.state;
            match crate::fsm::desired_of(from, kind, c.world()) {
                Some(new) => if new == State::Suspending {
                    lemma_entering(c, m, new, Entry::Fresh, from, kind);
                } else {
                    let d = main_flow::in_state(c, new);
                    let head = main_flow::entering(d, m, new, Entry::Fresh, from, kind);
                    lemma_entering(d, m, new, Entry::Fresh, from, kind);
                    let note = next[head.len() as int];
                    assert(note is Emit);
                    lemma_one(note);
                    lemma_sum(head, seq![note]);
                    assert(next =~= head + seq![note]);
                },
                None => {},
            }
        },
        _ => {
            if next.len() == 1 {
                lemma_one(next[0]);
                assert(next =~= seq![next[0]]);
            } else if next.len() == 2 {
                lemma_two(next[0], next[1]);
                assert(next =~= seq![next[0], next[1]]);
            } else {
                assert(next =~= seq![]);
            }
        },
    }
}

proof fn lemma_hooks(hooks: Seq<Seq<char>>)
    ensures
        at_most(profile_flow::hook_tasks(hooks), hooks.len()),
    decreases hooks.len(),
{
    let s = profile_flow::hook_tasks(hooks);
    if hooks.len() > 0 {
        lemma_hooks(hooks.skip(1));
        assert(s.skip(1) =~= profile_flow::hook_tasks(hooks.skip(1)));
    }
}

proof fn lemma_profile(c: CtxView, m: Mode, t: ProfileTodoView, reply: Reply)
    ensures
        ({
            let next = profile_flow::profile_step(c, m, t, reply).1.next;
            let whole: TodoView = Task::Profile(t);
            ||| loads_in(next) < loads(whole)
            ||| loads_in(next) == loads(whole) && work_in(next) < work(whole)
        }),
{
    lemma_none();
    let next = profile_flow::profile_step(c, m, t, reply).1.next;
    match t {
        ProfileTask::ChooseLoaded(signature) => {
            assert forall|i: int| 0 <= i < next.len() implies loads(#[trigger] next[i]) == 0 by {}
            lemma_no_loads(next);
        },
        ProfileTask::ApplyRepointed(p) => {
            if reply.yes() {
                let hooks = profile_flow::hook_tasks(p.inner.hooks);
                lemma_hooks(p.inner.hooks);
                lemma_one(next[0]);
                lemma_sum(seq![next[0]], hooks);
                assert(next =~= seq![next[0]] + hooks);
            }
        },
        _ => {
            if next.len() == 1 {
                lemma_one(next[0]);
                assert(next =~= seq![next[0]]);
            } else {
                assert(next =~= seq![]);
            }
        },
    }
}

proof fn lemma_no_loads(s: Seq<TodoView>)
    requires
        forall|i: int| 0 <= i < s.len() ==> loads(#[trigger] s[i]) == 0,
    ensures
        loads_in(s) == 0,
    decreases s.len(),
{
    if s.len() > 0 {
        assert forall|i: int| 0 <= i < s.len() - 1 implies loads(#[trigger] s.skip(1)[i]) == 0 by {
            assert(s.skip(1)[i] == s[i + 1]);
        }
        lemma_no_loads(s.skip(1));
    }
}

proof fn lemma_steps(steps: Seq<power_policy::BrightnessStep>)
    ensures
        at_most(power_flow::light_tasks(steps), 4 * steps.len()),
    decreases steps.len(),
{
    let s = power_flow::light_tasks(steps);
    if steps.len() > 0 {
        lemma_steps(steps.skip(1));
        assert(s.skip(1) =~= power_flow::light_tasks(steps.skip(1)));
    }
}

proof fn lemma_policy(c: CtxView, m: Mode, t: PowerTask, now: int, reply: Reply)
    ensures
        at_most(power_flow::policy_step(c, m, t, now, reply).1.next, (power_work(t) - 1) as nat),
{
    lemma_none();
    let next = power_flow::policy_step(c, m, t, now, reply).1.next;
    match t {
        PowerTask::Begin => {
            let outcome = power_policy::override_checked(c.power, c.base()).1;
            let head = power_flow::expiry_tasks(c, m, outcome);
            if head.len() == 1 {
                lemma_one(head[0]);
                assert(head =~= seq![head[0]]);
            } else if head.len() == 2 {
                lemma_two(head[0], head[1]);
                assert(head =~= seq![head[0], head[1]]);
            } else {
                assert(head =~= seq![]);
            }
            let tail: Seq<TodoView> = seq![
                Task::Power(PowerTask::Apply),
                Task::Power(PowerTask::Edges),
            ];
            lemma_two(tail[0], tail[1]);
            lemma_sum(head, tail);
        },
        PowerTask::Edges => {
            let steps = power_policy::steps_between(c.power.last_base, c.base());
            assert(steps.len() <= 3);
            lemma_steps(steps);
        },
        _ => {
            if next.len() == 1 {
                lemma_one(next[0]);
                assert(next =~= seq![next[0]]);
            } else {
                assert(next =~= seq![]);
            }
        },
    }
}

proof fn lemma_light(c: CtxView, m: Mode, t: LightTask, reply: Reply)
    ensures
        at_most(power_flow::light_step(c, m, t, reply).1.next, (light_work(t) - 1) as nat),
{
    lemma_none();
    let next = power_flow::light_step(c, m, t, reply).1.next;
    if next.len() == 1 {
        lemma_one(next[0]);
        assert(next =~= seq![next[0]]);
    } else {
        assert(next =~= seq![]);
    }
}

proof fn lemma_battery(c: CtxView, m: Mode, t: BatteryTask, reply: Reply)
    ensures
        at_most(
            power_flow::battery_step(c, m, t, reply).1.next,
            (work(Task::Battery(t)) - 1) as nat,
        ),
{
    lemma_none();
    let next = power_flow::battery_step(c, m, t, reply).1.next;
    if next.len() == 1 {
        lemma_one(next[0]);
        assert(next =~= seq![next[0]]);
    } else {
        assert(next =~= seq![]);
    }
}

proof fn lemma_gpu(c: CtxView, m: Mode, t: GpuTodoView, now: int, reply: Reply)
    ensures
        at_most(gpu_flow::gpu_step(c, m, t, now, reply).1.next, (gpu_work(t) - 1) as nat),
{
    lemma_none();
    let next = gpu_flow::gpu_step(c, m, t, now, reply).1.next;
    if next.len() == 1 {
        lemma_one(next[0]);
        assert(next =~= seq![next[0]]);
    } else if next.len() == 2 {
        lemma_two(next[0], next[1]);
        assert(next =~= seq![next[0], next[1]]);
    } else {
        assert(next =~= seq![]);
    }
}

proof fn lemma_short(s: Seq<TodoView>, n: nat)
    requires
        s.len() <= 1,
        s.len() == 1 ==> loads(s[0]) == 0 && work(s[0]) <= n,
    ensures
        at_most(s, n),
{
    lemma_none();
    if s.len() == 1 {
        lemma_one(s[0]);
        assert(s =~= seq![s[0]]);
    } else {
        assert(s =~= seq![]);
    }
}

proof fn lemma_repair(i: Inputs, j: Inputs, snap: ReconcileSnapshot)
    ensures
        at_most(reconcile::repair_tasks(i, j, snap), 41),
{
    lemma_none();
    let a: Seq<TodoView> = if i.ext_mon_count != j.ext_mon_count {
        seq![Task::Emit(Action::RestartProfileDebounce)]
    } else {
        seq![]
    };
    let b: Seq<TodoView> = if i.locked != j.locked {
        seq![Task::Emit(Action::MirrorLock(j.locked))]
    } else {
        seq![]
    };
    let c: Seq<TodoView> = if reconcile::power_drift(i, j) {
        seq![Task::Power(PowerTask::Begin), Task::Battery(BatteryTask::Check { gate: None })]
    } else {
        seq![]
    };
    let d: Seq<TodoView> = if reconcile::fsm_drift(i, j) {
        seq![Task::Main(MainTask::Evaluate(EventKind::CtxRepaired))]
    } else {
        seq![]
    };
    let e: Seq<TodoView> = seq![Task::Reconcile(ReconcileTask::AfterRepair(snap))];
    lemma_short(a, 1);
    lemma_short(b, 1);
    lemma_two(
        Task::Power(PowerTask::Begin),
        Task::Battery(BatteryTask::Check { gate: None }),
    );
    lemma_short(d, 11);
    lemma_short(e, 8);
    lemma_sum(a, b);
    lemma_sum(a + b, c);
    lemma_sum(a + b + c, d);
    lemma_sum(a + b + c + d, e);
}

proof fn lemma_reconcile(c: CtxView, m: Mode, t: ReconcileTask, reply: Reply)
    ensures
        at_most(reconcile::reconcile_step(c, m, t, reply).1.next, (reconcile_work(t) - 1) as nat),
{
    lemma_none();
    let next = reconcile::reconcile_step(c, m, t, reply).1.next;
    match t {
        ReconcileTask::Begin(snap) => {
            lemma_short(next, 42);
        },
        ReconcileTask::Probed(snap) => {
            let d = reconcile::repaired(c, snap, reply.yes());
            lemma_repair(c.inputs, d.inputs, snap);
        },
        ReconcileTask::AfterRepair(snap) => {
            if next.len() > 0 {
                lemma_two(next[0], next[1]);
                assert(next =~= seq![next[0], next[1]]);
            } else {
                assert(next =~= seq![]);
            }
        },
        ReconcileTask::Enforce(snap) => {
            let a = reconcile::panel_tasks(c, m, snap.edp_disabled);
            let b = reconcile::screen_tasks(c, m, snap);
            let note: TodoView = Task::Note(
                NoteKind::Snapshot,
                Cause::ReconcileTick,
            );
            lemma_short(a, 1);
            lemma_short(b, 1);
            lemma_one(note);
            lemma_sum(a, b);
            lemma_sum(a + b, seq![note]);
        },
    }
}

/// The outcome brings less than the task was.
pub open spec fn brings_less(t: TodoView, o: OutcomeView) -> bool {
    ||| loads_in(o.next) < loads(t)
    ||| loads_in(o.next) == loads(t) && work_in(o.next) < work(t)
}

proof fn lemma_task(c: CtxView, m: Mode, t: TodoView, now: int, reply: Reply)
    ensures
        brings_less(t, dispatcher::task_step(c, m, t, now, reply).1),
{
    lemma_none();
    match t {
        Task::Emit(_) => {},
        Task::Note(_, _) => {},
        Task::Main(t) => lemma_main(c, m, t, reply),
        Task::Profile(t) => lemma_profile(c, m, t, reply),
        Task::Power(t) => lemma_policy(c, m, t, now, reply),
        Task::Light(t) => lemma_light(c, m, t, reply),
        Task::Battery(t) => lemma_battery(c, m, t, reply),
        Task::Gpu(t) => lemma_gpu(c, m, t, now, reply),
        Task::Reconcile(t) => lemma_reconcile(c, m, t, reply),
    }
}

// --------------------------------------------------------------------------- laws

/// A step of a dispatcher that is not idle leaves less to be done.
pub proof fn steps_get_somewhere(d: DispatcherView, now: int, reply: Reply)
    requires
        d.todo.len() > 0,
    ensures
        ({
            let e = dispatcher::stepped(d, now, reply).0;
            ||| loads_in(e.todo) < loads_in(d.todo)
            ||| loads_in(e.todo) == loads_in(d.todo) && work_in(e.todo) < work_in(d.todo)
        }),
{
    let (c, o) = dispatcher::task_step(d.ctx, d.mode, d.todo[0], now, reply);
    lemma_none();
    lemma_task(d.ctx, d.mode, d.todo[0], now, reply);
    lemma_sum(o.next, d.todo.skip(1));
    assert(work(d.todo[0]) > 0);
}

/// The first times and replies of a world.
pub open spec fn told(world: spec_fn(int) -> (int, Reply), n: nat) -> Seq<(int, Reply)> {
    Seq::new(n, world)
}

proof fn lemma_drains(d: DispatcherView, world: spec_fn(int) -> (int, Reply), k: nat) -> (n: nat)
    ensures
        safety::ran(d, told(world, n)).todo.len() == 0,
    decreases
            loads_in(safety::ran(d, told(world, k)).todo),
            work_in(safety::ran(d, told(world, k)).todo),
{
    let at = safety::ran(d, told(world, k));
    if at.todo.len() == 0 {
        k
    } else {
        let longer = told(world, k + 1);
        assert(longer.drop_last() =~= told(world, k));
        steps_get_somewhere(at, world(k as int).0, world(k as int).1);
        lemma_drains(d, world, k + 1)
    }
}

/// Whatever the world answers, and whenever: the dispatcher is idle after some number of
/// steps, and takes the next event.
pub proof fn every_event_comes_to_an_end(d: DispatcherView, world: spec_fn(int) -> (int, Reply))
    ensures
        exists|n: nat| safety::ran(d, #[trigger] told(world, n)).todo.len() == 0,
{
    let n = lemma_drains(d, world, 0);
    assert(safety::ran(d, told(world, n)).todo.len() == 0);
}

} // verus!
