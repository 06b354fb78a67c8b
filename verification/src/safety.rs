//! What no run of the dispatcher does, whatever the world answers.
use vstd::prelude::*;

use crate::ctx::CtxView;
use crate::dispatcher;
use crate::dispatcher::DispatcherView;
use crate::effectors::Cmd;
use crate::event::Event;
use crate::fsm::{EventKind, State};
use crate::gpu_flow;
use crate::main_flow;
use crate::main_flow::Mode;
use crate::power_flow;
use crate::profile_flow;
use crate::reconcile;
use crate::tasks::{
    Action, BatteryTask, Entry, GpuTodoView, LightTask, MainTask, OutcomeView, PowerTask,
    ProfileTask, ProfileTodoView, ReconcileTask, Reply, Task, TodoView,
};

verus! {

// ------------------------------------------------------------------------ runs

/// The dispatcher after a run: one step per time and reply.
pub open spec fn ran(d: DispatcherView, script: Seq<(int, Reply)>) -> DispatcherView
    decreases script.len(),
{
    if script.len() == 0 {
        d
    } else {
        dispatcher::stepped(ran(d, script.drop_last()), script.last().0, script.last().1).0
    }
}

/// The action that a step of a run hands out.
pub open spec fn handed_out(d: DispatcherView, script: Seq<(int, Reply)>, i: int) -> Option<
    Action<Seq<char>>,
> {
    dispatcher::stepped(ran(d, script.take(i)), script[i].0, script[i].1).1
}

proof fn lemma_run_step(d: DispatcherView, script: Seq<(int, Reply)>, i: int)
    requires
        0 <= i < script.len(),
    ensures
        ran(d, script.take(i + 1)) == dispatcher::stepped(
            ran(d, script.take(i)),
            script[i].0,
            script[i].1,
        ).0,
{
    assert(script.take(i + 1).drop_last() =~= script.take(i));
}

// ------------------------------------------------------------ what may be queued

/// The task belongs to the last steps into suspend.
pub open spec fn at_the_brink(t: TodoView) -> bool {
    match t {
        Task::Main(t) => match t {
            MainTask::LockerProbed { .. } => true,
            MainTask::LockerConfirmed { .. } => true,
            MainTask::DoSuspend { .. } => true,
            _ => false,
        },
        _ => false,
    }
}

/// The action may be handed out at any time. A daemon that only watches hands out
/// nothing that changes the world.
pub open spec fn harmless(m: Mode, a: Action<Seq<char>>) -> bool {
    &&& a !is Suspend
    &&& m.shadow ==> !a.mutates()
}

/// The task may stand anywhere in the queue.
pub open spec fn plain(m: Mode, t: TodoView) -> bool {
    &&& !at_the_brink(t)
    &&& match t {
        Task::Emit(a) => harmless(m, a),
        Task::Profile(ProfileTask::ApplyRepointed(_)) => !m.shadow,
        _ => true,
    }
}

pub open spec fn all_plain(m: Mode, s: Seq<TodoView>) -> bool {
    forall|i: int| 0 <= i < s.len() ==> plain(m, #[trigger] s[i])
}

/// The outcome queues plain tasks and hands out a harmless action.
pub open spec fn plain_outcome(m: Mode, o: OutcomeView) -> bool {
    &&& all_plain(m, o.next)
    &&& o.act matches Some(a) ==> harmless(m, a)
}

/// Every queue that comes up is of this shape: the last steps into suspend stand at its
/// head only.
pub open spec fn sound(d: DispatcherView) -> bool {
    &&& d.todo.len() > 0 ==> at_the_brink(d.todo[0]) || plain(d.mode, d.todo[0])
    &&& d.todo.len() > 0 ==> all_plain(d.mode, d.todo.skip(1))
}

proof fn lemma_concat(m: Mode, a: Seq<TodoView>, b: Seq<TodoView>)
    requires
        all_plain(m, a),
        all_plain(m, b),
    ensures
        all_plain(m, a + b),
{
    assert forall|i: int| 0 <= i < (a + b).len() implies plain(m, #[trigger] (a + b)[i]) by {
        if i < a.len() {
            assert((a + b)[i] == a[i]);
        } else {
            assert((a + b)[i] == b[i - a.len()]);
        }
    }
}

proof fn lemma_entering(
    c: CtxView,
    m: Mode,
    state: State,
    entry: Entry,
    from: State,
    kind: EventKind,
)
    ensures
        all_plain(m, main_flow::entering(c, m, state, entry, from, kind)),
{
}

proof fn lemma_hooks(m: Mode, hooks: Seq<Seq<char>>)
    requires
        !m.shadow,
    ensures
        all_plain(m, profile_flow::hook_tasks(hooks)),
{
}

proof fn main_is_plain(c: CtxView, m: Mode, t: MainTask, reply: Reply)
    requires
        !at_the_brink(Task::Main(t)),
    ensures
        ({
            let o = main_flow::main_step(c, m, t, reply).1;
            &&& !o.stop
            &&& plain_outcome(m, o) || (o.act == Some(Action::<Seq<char>>::ProbeLocker)
                && o.next.len() == 1 && at_the_brink(o.next[0]) && !(o.next[0] matches Task::Main(
                MainTask::DoSuspend { .. },
            )))
        }),
{
    match t {
        MainTask::Enter(entry) => {
            lemma_entering(c, m, c.inputs.state, entry, c.inputs.state, EventKind::Reconcile);
        },
        MainTask::Evaluate(kind) => {
            let from = c.inputs.state;
            match crate::fsm::desired_of(from, kind, c.world()) {
                Some(new) => {
                    lemma_entering(c, m, new, Entry::Fresh, from, kind);
                    lemma_entering(
                        main_flow::in_state(c, new),
                        m,
                        new,
                        Entry::Fresh,
                        from,
                        kind,
                    );
                },
                None => {},
            }
        },
        _ => {},
    }
}

proof fn brink_outcomes(c: CtxView, m: Mode, t: MainTask, reply: Reply)
    requires
        at_the_brink(Task::Main(t)),
    ensures
        ({
            let o = main_flow::main_step(c, m, t, reply).1;
            &&& !o.stop
            &&& match t {
                MainTask::DoSuspend { .. } => all_plain(m, o.next) && (o.act matches Some(a) ==> a
                    == Action::<Seq<char>>::Suspend && !m.shadow),
                _ => plain_outcome(m, o) || (reply.yes() && o.act is None && o.next.len() == 1
                    && o.next[0] matches Task::Main(MainTask::DoSuspend { .. })),
            }
        }),
{
}

proof fn profile_is_plain(c: CtxView, m: Mode, t: ProfileTodoView, reply: Reply)
    requires
        plain(m, Task::Profile(t)),
    ensures
        plain_outcome(m, profile_flow::profile_step(c, m, t, reply).1),
{
    match t {
        ProfileTask::ApplyRepointed(p) => lemma_hooks(m, p.inner.hooks),
        _ => {},
    }
}

proof fn policy_is_plain(c: CtxView, m: Mode, t: PowerTask, now: int, reply: Reply)
    ensures
        plain_outcome(m, power_flow::policy_step(c, m, t, now, reply).1),
{
}

proof fn light_is_plain(c: CtxView, m: Mode, t: LightTask, reply: Reply)
    ensures
        plain_outcome(m, power_flow::light_step(c, m, t, reply).1),
{
}

proof fn battery_is_plain(c: CtxView, m: Mode, t: BatteryTask, reply: Reply)
    ensures
        plain_outcome(m, power_flow::battery_step(c, m, t, reply).1),
{
}

proof fn gpu_is_plain(c: CtxView, m: Mode, t: GpuTodoView, now: int, reply: Reply)
    ensures
        plain_outcome(m, gpu_flow::gpu_step(c, m, t, now, reply).1),
{
}

proof fn reconcile_is_plain(c: CtxView, m: Mode, t: ReconcileTask, reply: Reply)
    ensures
        plain_outcome(m, reconcile::reconcile_step(c, m, t, reply).1),
{
}

proof fn lemma_step(d: DispatcherView, now: int, reply: Reply)
    requires
        sound(d),
        d.todo.len() > 0,
    ensures
        ({
            let o = dispatcher::task_step(d.ctx, d.mode, d.todo[0], now, reply).1;
            ||| plain_outcome(d.mode, o)
            ||| !o.stop && o.act == Some(Action::<Seq<char>>::ProbeLocker) && o.next.len() == 1
                && at_the_brink(o.next[0]) && !(o.next[0] matches Task::Main(
                MainTask::DoSuspend { .. },
            ))
            ||| !o.stop && (d.todo[0] matches Task::Main(MainTask::DoSuspend { .. })) && all_plain(
                d.mode,
                o.next,
            ) && o.act == Some(Action::<Seq<char>>::Suspend) && !d.mode.shadow
            ||| !o.stop && at_the_brink(d.todo[0]) && !(d.todo[0] matches Task::Main(
                MainTask::DoSuspend { .. },
            )) && reply.yes() && o.act is None && o.next.len() == 1 && (o.next[0] matches Task::Main(
                MainTask::DoSuspend { .. },
            ))
        }),
{
    let c = d.ctx;
    let m = d.mode;
    match d.todo[0] {
        Task::Emit(_) => {},
        Task::Note(_, _) => {},
        Task::Main(t) => if at_the_brink(d.todo[0]) {
            brink_outcomes(c, m, t, reply);
        } else {
            main_is_plain(c, m, t, reply);
        },
        Task::Profile(t) => profile_is_plain(c, m, t, reply),
        Task::Power(t) => policy_is_plain(c, m, t, now, reply),
        Task::Light(t) => light_is_plain(c, m, t, reply),
        Task::Battery(t) => battery_is_plain(c, m, t, reply),
        Task::Gpu(t) => gpu_is_plain(c, m, t, now, reply),
        Task::Reconcile(t) => reconcile_is_plain(c, m, t, reply),
    }
}

/// A step keeps the queue in shape.
pub proof fn steps_keep_the_queue_sound(d: DispatcherView, now: int, reply: Reply)
    requires
        sound(d),
    ensures
        sound(dispatcher::stepped(d, now, reply).0),
{
    if d.todo.len() > 0 {
        lemma_step(d, now, reply);
        let o = dispatcher::task_step(d.ctx, d.mode, d.todo[0], now, reply).1;
        let rest = d.todo.skip(1);
        let all = o.next + rest;
        if !o.stop {
            if all_plain(d.mode, o.next) {
                lemma_concat(d.mode, o.next, rest);
                if all.len() > 0 {
                    assert(plain(d.mode, all[0]));
                    assert forall|i: int| 0 <= i < all.skip(1).len() implies plain(
                        d.mode,
                        #[trigger] all.skip(1)[i],
                    ) by {
                        assert(all.skip(1)[i] == all[i + 1]);
                    }
                }
            } else {
                assert(all[0] == o.next[0]);
                assert(all.skip(1) =~= rest);
            }
        }
    }
}

/// Every event leaves a queue in shape, without a suspend that is already due.
pub proof fn events_start_a_sound_queue(d: DispatcherView, now: int, ev: Event)
    ensures
        all_plain(d.mode, dispatcher::receiving(d, now, ev).todo),
        sound(dispatcher::receiving(d, now, ev)),
{
    let first = dispatcher::first_tasks(d.ctx, d.mode, now, ev);
    let todo = dispatcher::receiving(d, now, ev).todo;
    assert(all_plain(d.mode, first));
    if dispatcher::feeds(d.ctx, ev) {
        lemma_following(d.mode, ev.as_kind());
        lemma_concat(d.mode, first, dispatcher::following(ev.as_kind()));
    } else {
        assert(todo =~= first);
    }
    lemma_plain_is_sound(dispatcher::receiving(d, now, ev));
}

proof fn lemma_following(m: Mode, kind: EventKind)
    ensures
        all_plain(m, dispatcher::following(kind)),
{
}

proof fn lemma_plain_is_sound(d: DispatcherView)
    requires
        all_plain(d.mode, d.todo),
    ensures
        sound(d),
{
    if d.todo.len() > 0 {
        assert(plain(d.mode, d.todo[0]));
        assert forall|i: int| 0 <= i < d.todo.skip(1).len() implies plain(
            d.mode,
            #[trigger] d.todo.skip(1)[i],
        ) by {
            assert(d.todo.skip(1)[i] == d.todo[i + 1]);
        }
    }
}

/// The start leaves a queue in shape, without a suspend that is already due.
pub proof fn startup_queue_is_sound(c: CtxView, m: Mode)
    ensures
        all_plain(m, dispatcher::starting(c, m).todo),
        sound(dispatcher::starting(c, m)),
{
    let d = main_flow::with_request(c, false);
    let state = crate::fsm::world_of(d.world());
    let e = main_flow::in_state(d, state);
    lemma_entering(e, m, state, Entry::Fresh, state, EventKind::Reconcile);
    assert(all_plain(m, dispatcher::starting(c, m).todo));
    lemma_plain_is_sound(dispatcher::starting(c, m));
}

/// A run keeps the queue in shape.
pub proof fn runs_keep_the_queue_sound(d: DispatcherView, script: Seq<(int, Reply)>)
    requires
        sound(d),
    ensures
        sound(ran(d, script)),
        ran(d, script).mode == d.mode,
    decreases script.len(),
{
    if script.len() > 0 {
        runs_keep_the_queue_sound(d, script.drop_last());
        steps_keep_the_queue_sound(
            ran(d, script.drop_last()),
            script.last().0,
            script.last().1,
        );
    }
}

// ------------------------------------------------------------------------ laws

/// A daemon that only watches never changes the world: no step of any run of any event
/// hands out an action that would.
pub proof fn watching_changes_nothing(
    d: DispatcherView,
    now: int,
    ev: Event,
    script: Seq<(int, Reply)>,
    i: int,
)
    requires
        d.mode.shadow,
        0 <= i < script.len(),
    ensures
        handed_out(dispatcher::receiving(d, now, ev), script, i) matches Some(a) ==> !a.mutates(),
{
    let start = dispatcher::receiving(d, now, ev);
    events_start_a_sound_queue(d, now, ev);
    runs_keep_the_queue_sound(start, script.take(i));
    let at = ran(start, script.take(i));
    if at.todo.len() > 0 {
        lemma_step(at, script[i].0, script[i].1);
    }
}

/// A daemon that only watches changes nothing at startup either.
pub proof fn watching_starts_quietly(c: CtxView, m: Mode, script: Seq<(int, Reply)>, i: int)
    requires
        m.shadow,
        0 <= i < script.len(),
    ensures
        handed_out(dispatcher::starting(c, m), script, i) matches Some(a) ==> !a.mutates(),
{
    let start = dispatcher::starting(c, m);
    startup_queue_is_sound(c, m);
    runs_keep_the_queue_sound(start, script.take(i));
    let at = ran(start, script.take(i));
    if at.todo.len() > 0 {
        lemma_step(at, script[i].0, script[i].1);
    }
}

/// No suspend without a lock: from a queue in shape whose suspend is not already due,
/// every suspend comes two steps after a probe of the locker, and right after its
/// answer was yes.
pub proof fn suspend_follows_a_live_locker(
    d: DispatcherView,
    script: Seq<(int, Reply)>,
    i: int,
)
    requires
        all_plain(d.mode, d.todo),
        0 <= i < script.len(),
        handed_out(d, script, i) == Some(Action::<Seq<char>>::Suspend),
    ensures
        i >= 2,
        handed_out(d, script, i - 2) == Some(Action::<Seq<char>>::ProbeLocker),
        script[i - 1].1.yes(),
{
    lemma_plain_is_sound(d);
    runs_keep_the_queue_sound(d, script.take(i));
    let at = ran(d, script.take(i));
    assert(at.todo.len() > 0);
    lemma_step(at, script[i].0, script[i].1);
    assert(at.todo[0] matches Task::Main(MainTask::DoSuspend { .. }));
    if i == 0 {
        assert(script.take(0) =~= Seq::<(int, Reply)>::empty());
        assert(plain(d.mode, d.todo[0]));
    } else {
        lemma_run_step(d, script, i - 1);
        runs_keep_the_queue_sound(d, script.take(i - 1));
        let before = ran(d, script.take(i - 1));
        assert(before.todo.len() > 0);
        lemma_brink_moves(before, script[i - 1].0, script[i - 1].1);
        if i == 1 {
            assert(script.take(0) =~= Seq::<(int, Reply)>::empty());
            assert(plain(d.mode, d.todo[0]));
        } else {
            lemma_run_step(d, script, i - 2);
            runs_keep_the_queue_sound(d, script.take(i - 2));
            let first = ran(d, script.take(i - 2));
            assert(first.todo.len() > 0);
            lemma_brink_moves(first, script[i - 2].0, script[i - 2].1);
        }
    }
}

/// What brings the last steps into suspend to the head of the queue.
proof fn lemma_brink_moves(d: DispatcherView, now: int, reply: Reply)
    requires
        sound(d),
        d.todo.len() > 0,
        dispatcher::stepped(d, now, reply).0.todo.len() > 0,
        at_the_brink(dispatcher::stepped(d, now, reply).0.todo[0]),
    ensures
        dispatcher::stepped(d, now, reply).0.todo[0] matches Task::Main(
            MainTask::DoSuspend { .. },
        ) ==> at_the_brink(d.todo[0]) && !(d.todo[0] matches Task::Main(
            MainTask::DoSuspend { .. },
        )) && reply.yes(),
        !(dispatcher::stepped(d, now, reply).0.todo[0] matches Task::Main(
            MainTask::DoSuspend { .. },
        )) ==> dispatcher::stepped(d, now, reply).1 == Some(Action::<Seq<char>>::ProbeLocker),
{
    lemma_step(d, now, reply);
    let o = dispatcher::task_step(d.ctx, d.mode, d.todo[0], now, reply).1;
    let rest = d.todo.skip(1);
    let all = o.next + rest;
    if all_plain(d.mode, o.next) {
        lemma_concat(d.mode, o.next, rest);
        assert(plain(d.mode, all[0]));
    } else {
        assert(all[0] == o.next[0]);
    }
}

// ------------------------------------------------- events beside the main machine

/// The task leaves the state of the main machine alone, and so does all that it leads
/// to, outside the suspending state.
pub open spec fn calm(t: TodoView) -> bool {
    match t {
        Task::Main(t) => match t {
            MainTask::Enter(_) => true,
            MainTask::StartGrace { .. } => true,
            MainTask::GraceProbed => true,
            MainTask::CountMonitors => true,
            MainTask::MonitorsCounted => true,
            _ => false,
        },
        Task::Battery(_) => false,
        Task::Reconcile(_) => false,
        _ => true,
    }
}

pub open spec fn all_calm(s: Seq<TodoView>) -> bool {
    forall|i: int| 0 <= i < s.len() ==> calm(#[trigger] s[i])
}

proof fn lemma_calm_step(c: CtxView, m: Mode, t: TodoView, now: int, reply: Reply)
    requires
        calm(t),
        c.inputs.state != State::Suspending,
    ensures
        dispatcher::task_step(c, m, t, now, reply).0.inputs.state == c.inputs.state,
        all_calm(dispatcher::task_step(c, m, t, now, reply).1.next),
{
    match t {
        Task::Emit(_) => {},
        Task::Note(_, _) => {},
        Task::Main(t) => calm_main(c, m, t, reply),
        Task::Profile(t) => calm_profile(c, m, t, reply),
        Task::Power(t) => calm_policy(c, m, t, now, reply),
        Task::Light(t) => calm_light(c, m, t, reply),
        Task::Battery(_) => {},
        Task::Gpu(t) => calm_gpu(c, m, t, now, reply),
        Task::Reconcile(_) => {},
    }
}

proof fn calm_main(c: CtxView, m: Mode, t: MainTask, reply: Reply)
    requires
        calm(Task::Main(t)),
        c.inputs.state != State::Suspending,
    ensures
        main_flow::main_step(c, m, t, reply).0.inputs.state == c.inputs.state,
        all_calm(main_flow::main_step(c, m, t, reply).1.next),
{
}

proof fn calm_profile(c: CtxView, m: Mode, t: ProfileTodoView, reply: Reply)
    ensures
        profile_flow::profile_step(c, m, t, reply).0.inputs == c.inputs,
        all_calm(profile_flow::profile_step(c, m, t, reply).1.next),
{
    match t {
        ProfileTask::ApplyRepointed(p) => {
            assert(all_calm(profile_flow::hook_tasks(p.inner.hooks)));
        },
        _ => {},
    }
}

proof fn calm_policy(c: CtxView, m: Mode, t: PowerTask, now: int, reply: Reply)
    ensures
        power_flow::policy_step(c, m, t, now, reply).0.inputs == c.inputs,
        all_calm(power_flow::policy_step(c, m, t, now, reply).1.next),
{
}

proof fn calm_light(c: CtxView, m: Mode, t: LightTask, reply: Reply)
    ensures
        power_flow::light_step(c, m, t, reply).0.inputs == c.inputs,
        all_calm(power_flow::light_step(c, m, t, reply).1.next),
{
}

proof fn calm_gpu(c: CtxView, m: Mode, t: GpuTodoView, now: int, reply: Reply)
    ensures
        gpu_flow::gpu_step(c, m, t, now, reply).0.inputs == c.inputs,
        all_calm(gpu_flow::gpu_step(c, m, t, now, reply).1.next),
{
}

proof fn lemma_calm_run(d: DispatcherView, script: Seq<(int, Reply)>)
    requires
        all_calm(d.todo),
        d.ctx.inputs.state != State::Suspending,
    ensures
        all_calm(ran(d, script).todo),
        ran(d, script).ctx.inputs.state == d.ctx.inputs.state,
    decreases script.len(),
{
    if script.len() > 0 {
        lemma_calm_run(d, script.drop_last());
        let at = ran(d, script.drop_last());
        let (now, reply) = (script.last().0, script.last().1);
        if at.todo.len() > 0 {
            assert(calm(at.todo[0]));
            lemma_calm_step(at.ctx, at.mode, at.todo[0], now, reply);
            let o = dispatcher::task_step(at.ctx, at.mode, at.todo[0], now, reply).1;
            let rest = at.todo.skip(1);
            assert forall|i: int| 0 <= i < (o.next + rest).len() implies calm(
                #[trigger] (o.next + rest)[i],
            ) by {
                if i < o.next.len() {
                    assert((o.next + rest)[i] == o.next[i]);
                } else {
                    assert((o.next + rest)[i] == at.todo[i - o.next.len() + 1]);
                }
            }
        }
    }
}

/// A reloaded configuration, a changed set of monitors and changed profiles never feed
/// the main machine: whatever the world answers, its state stays what it was.
pub proof fn reloads_leave_the_state_alone(
    d: DispatcherView,
    now: int,
    ev: Event,
    script: Seq<(int, Reply)>,
)
    requires
        ev is ConfigReloaded || ev is MonitorsChanged || ev is ProfilesChanged,
        d.ctx.inputs.state != State::Suspending,
    ensures
        ran(dispatcher::receiving(d, now, ev), script).ctx.inputs.state == d.ctx.inputs.state,
{
    assert(all_calm(dispatcher::receiving(d, now, ev).todo));
    lemma_calm_run(dispatcher::receiving(d, now, ev), script);
}

// ------------------------------------------------------------- a running countdown

/// The task leaves a grace timer that is running alone, outside the answer to a probe.
pub open spec fn patient(t: TodoView) -> bool {
    match t {
        Task::Emit(a) => !(a is RestartGraceTimer) && !(a is CancelGraceTimer),
        Task::Main(MainTask::Enter(Entry::Reassert)) => true,
        Task::Main(MainTask::StartGrace { fresh }) => !fresh,
        Task::Profile(ProfileTask::Ingest) => true,
        Task::Profile(ProfileTask::IngestNamed) => true,
        Task::Profile(ProfileTask::IngestLoaded(_)) => true,
        _ => false,
    }
}

pub open spec fn all_patient(s: Seq<TodoView>) -> bool {
    forall|i: int| 0 <= i < s.len() ==> patient(#[trigger] s[i])
}

/// The answer to a probe of the grace timer is due.
pub open spec fn awaits_probe(d: DispatcherView) -> bool {
    d.todo.len() > 0 && (d.todo[0] matches Task::Main(MainTask::GraceProbed))
}

/// The countdown is on, and nothing in the queue touches its timer.
pub open spec fn counts_on(d: DispatcherView) -> bool {
    &&& d.ctx.inputs.state == State::Countdown
    &&& d.todo.len() > 0 ==> awaits_probe(d) || patient(d.todo[0])
    &&& d.todo.len() > 0 ==> all_patient(d.todo.skip(1))
}

proof fn lemma_patient_step(d: DispatcherView, now: int, reply: Reply)
    requires
        counts_on(d),
        awaits_probe(d) ==> reply.yes(),
    ensures
        counts_on(dispatcher::stepped(d, now, reply).0),
        awaits_probe(dispatcher::stepped(d, now, reply).0) ==> dispatcher::stepped(
            d,
            now,
            reply,
        ).1 == Some(Action::<Seq<char>>::ProbeGraceTimer),
        dispatcher::stepped(d, now, reply).1 matches Some(a) ==> !(a is RestartGraceTimer) && !(
        a is CancelGraceTimer),
{
    if d.todo.len() > 0 {
        let (c, o) = dispatcher::task_step(d.ctx, d.mode, d.todo[0], now, reply);
        let rest = d.todo.skip(1);
        let all = o.next + rest;
        assert(c.inputs.state == State::Countdown);
        if all.len() > 0 {
            assert(all[0] == (if o.next.len() > 0 {
                o.next[0]
            } else {
                rest[0]
            }));
            assert forall|i: int| 0 <= i < all.skip(1).len() implies patient(
                #[trigger] all.skip(1)[i],
            ) by {
                if i + 1 < o.next.len() {
                    assert(all.skip(1)[i] == o.next[i + 1]);
                } else {
                    assert(all.skip(1)[i] == rest[i + 1 - o.next.len()]);
                }
            }
        }
    }
}

proof fn lemma_patient_run(d: DispatcherView, script: Seq<(int, Reply)>, k: int)
    requires
        counts_on(d),
        !awaits_probe(d),
        0 <= k <= script.len(),
        forall|i: int|
            0 <= i < script.len() - 1 && #[trigger] handed_out(d, script, i) == Some(
                Action::<Seq<char>>::ProbeGraceTimer,
            ) ==> script[i + 1].1.yes(),
    ensures
        counts_on(ran(d, script.take(k))),
        k < script.len() && awaits_probe(ran(d, script.take(k))) ==> script[k].1.yes(),
    decreases k,
{
    if k == 0 {
        assert(script.take(0) =~= Seq::<(int, Reply)>::empty());
    } else {
        lemma_patient_run(d, script, k - 1);
        lemma_run_step(d, script, k - 1);
        lemma_patient_step(ran(d, script.take(k - 1)), script[k - 1].0, script[k - 1].1);
        if k < script.len() && awaits_probe(ran(d, script.take(k))) {
            assert(handed_out(d, script, k - 1) == Some(Action::<Seq<char>>::ProbeGraceTimer));
        }
    }
}

/// A reloaded configuration never extends a countdown: where every probe finds the grace
/// timer running, it is neither restarted nor cancelled.
pub proof fn reloads_do_not_extend_a_countdown(
    d: DispatcherView,
    now: int,
    script: Seq<(int, Reply)>,
    k: int,
)
    requires
        d.ctx.inputs.state == State::Countdown,
        0 <= k < script.len(),
        forall|i: int|
            0 <= i < script.len() - 1 && #[trigger] handed_out(
                dispatcher::receiving(d, now, Event::ConfigReloaded),
                script,
                i,
            ) == Some(Action::<Seq<char>>::ProbeGraceTimer) ==> script[i + 1].1.yes(),
    ensures
        handed_out(dispatcher::receiving(d, now, Event::ConfigReloaded), script, k) matches Some(a)
            ==> !(a is RestartGraceTimer) && !(a is CancelGraceTimer),
{
    let start = dispatcher::receiving(d, now, Event::ConfigReloaded);
    assert(counts_on(start) && !awaits_probe(start));
    lemma_patient_run(start, script, k);
    lemma_patient_step(ran(start, script.take(k)), script[k].0, script[k].1);
}

// ---------------------------------------------------------------- the only output

/// The task turns the internal panel off.
pub open spec fn darkens(t: TodoView) -> bool {
    t == Task::<Seq<char>, Seq<Seq<char>>, crate::toml_profile::TomlView>::Emit(
        Action::Run(Cmd::SetEdp { on: false }),
    )
}

/// The only output is never turned off: no task that a step puts into the queue turns
/// the internal panel off while no external monitor counts.
pub proof fn sole_output_stays_on(
    c: CtxView,
    m: Mode,
    t: TodoView,
    now: int,
    reply: Reply,
    i: int,
)
    requires
        ({
            let next = dispatcher::task_step(c, m, t, now, reply).1.next;
            0 <= i < next.len() && darkens(next[i])
        }),
    ensures
        c.inputs.ext_mon_count > 0,
{
    match t {
        Task::Emit(_) => {},
        Task::Note(_, _) => {},
        Task::Main(t) => lit_main(c, m, t, reply, i),
        Task::Profile(t) => lit_profile(c, m, t, reply, i),
        Task::Power(t) => lit_policy(c, m, t, now, reply, i),
        Task::Light(t) => lit_light(c, m, t, reply, i),
        Task::Battery(t) => lit_battery(c, m, t, reply, i),
        Task::Gpu(t) => lit_gpu(c, m, t, now, reply, i),
        Task::Reconcile(t) => lit_reconcile(c, m, t, reply, i),
    }
}

proof fn lit_entering(
    c: CtxView,
    m: Mode,
    state: State,
    entry: Entry,
    from: State,
    kind: EventKind,
    i: int,
)
    requires
        0 <= i < main_flow::entering(c, m, state, entry, from, kind).len(),
        darkens(main_flow::entering(c, m, state, entry, from, kind)[i]),
    ensures
        c.inputs.ext_mon_count > 0,
{
}

proof fn lit_main(c: CtxView, m: Mode, t: MainTask, reply: Reply, i: int)
    requires
        0 <= i < main_flow::main_step(c, m, t, reply).1.next.len(),
        darkens(main_flow::main_step(c, m, t, reply).1.next[i]),
    ensures
        c.inputs.ext_mon_count > 0,
{
    match t {
        MainTask::Enter(entry) => {
            lit_entering(c, m, c.inputs.state, entry, c.inputs.state, EventKind::Reconcile, i);
        },
        MainTask::Evaluate(kind) => {
            let from = c.inputs.state;
            match crate::fsm::desired_of(from, kind, c.world()) {
                Some(new) => if new == State::Suspending {
                    lit_entering(c, m, new, Entry::Fresh, from, kind, i);
                } else {
                    let d = main_flow::in_state(c, new);
                    let tasks = main_flow::entering(d, m, new, Entry::Fresh, from, kind);
                    if i < tasks.len() {
                        assert(main_flow::evaluated(c, m, kind).1.next[i] == tasks[i]);
                        lit_entering(d, m, new, Entry::Fresh, from, kind, i);
                    }
                },
                None => {},
            }
        },
        _ => {},
    }
}

proof fn lit_profile(c: CtxView, m: Mode, t: ProfileTodoView, reply: Reply, i: int)
    requires
        0 <= i < profile_flow::profile_step(c, m, t, reply).1.next.len(),
    ensures
        !darkens(profile_flow::profile_step(c, m, t, reply).1.next[i]),
{
}

proof fn lit_policy(c: CtxView, m: Mode, t: PowerTask, now: int, reply: Reply, i: int)
    requires
        0 <= i < power_flow::policy_step(c, m, t, now, reply).1.next.len(),
    ensures
        !darkens(power_flow::policy_step(c, m, t, now, reply).1.next[i]),
{
}

proof fn lit_light(c: CtxView, m: Mode, t: LightTask, reply: Reply, i: int)
    requires
        0 <= i < power_flow::light_step(c, m, t, reply).1.next.len(),
    ensures
        !darkens(power_flow::light_step(c, m, t, reply).1.next[i]),
{
}

proof fn lit_battery(c: CtxView, m: Mode, t: BatteryTask, reply: Reply, i: int)
    requires
        0 <= i < power_flow::battery_step(c, m, t, reply).1.next.len(),
    ensures
        !darkens(power_flow::battery_step(c, m, t, reply).1.next[i]),
{
}

proof fn lit_gpu(c: CtxView, m: Mode, t: GpuTodoView, now: int, reply: Reply, i: int)
    requires
        0 <= i < gpu_flow::gpu_step(c, m, t, now, reply).1.next.len(),
    ensures
        !darkens(gpu_flow::gpu_step(c, m, t, now, reply).1.next[i]),
{
}

proof fn lit_reconcile(c: CtxView, m: Mode, t: ReconcileTask, reply: Reply, i: int)
    requires
        0 <= i < reconcile::reconcile_step(c, m, t, reply).1.next.len(),
        darkens(reconcile::reconcile_step(c, m, t, reply).1.next[i]),
    ensures
        c.inputs.ext_mon_count > 0,
{
}

// ------------------------------------------------------------------------- resume

/// Waking up withdraws a standing request before the main machine looks: the request
/// is gone from the context, its file is to be removed, and the evaluation comes last.
pub proof fn resume_withdraws_the_request(d: DispatcherView, now: int)
    ensures
        ({
            let e = dispatcher::receiving(d, now, Event::Resumed);
            &&& !e.ctx.inputs.suspend_requested
            &&& !d.mode.shadow ==> e.todo[0]
                == Task::<Seq<char>, Seq<Seq<char>>, crate::toml_profile::TomlView>::Emit(
                Action::ClearSuspendRequest,
            )
            &&& e.todo.len() > 0
            &&& e.todo.last() == Task::<Seq<char>, Seq<Seq<char>>, crate::toml_profile::TomlView>::Main(
                MainTask::Evaluate(EventKind::Resumed),
            )
        }),
{
}

/// After waking up with the lid open the machine is in the open state.
pub proof fn waking_with_the_lid_open(c: CtxView, m: Mode, reply: Reply)
    requires
        c.inputs.state == State::Suspending,
        !c.inputs.lid_closed,
        !c.inputs.suspend_requested,
    ensures
        main_flow::main_step(
            c,
            m,
            MainTask::Evaluate(EventKind::Resumed),
            reply,
        ).0.inputs.state == State::LidOpen,
{
}

} // verus!
