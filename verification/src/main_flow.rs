//! The main machine at work: entering states, evaluating events, and the way into
//! suspend.
use vstd::prelude::*;

use crate::ctx::{Context, CtxView, Inputs};
use crate::effectors::Cmd;
use crate::fsm::{desired_state, edp_may_disable, EventKind, State};
use crate::tasks::{
    as_command, ask, be_quiet, do_now, lead_to, lead_to_one, no_tasks, push_task, Action, Cause,
    Entry, Fired, MainTask, Note, NoteKind, Outcome, OutcomeView, Reply, Task, Todo, TodoView,
};
use crate::tasks;

verus! {

/// How the daemon runs.
#[derive(Debug, Clone, Copy, PartialEq, Eq, Structural)]
pub struct Mode {
    /// Only log what would be done.
    pub shadow: bool,
    /// The session of the user is known, so it can be locked and dimmed.
    pub session: bool,
}

// ------------------------------------------------------------------ entering

/// The tasks that set the internal panel. The profile's policy outranks the lid, and
/// the only output is never turned off.
pub open spec fn edp_tasks(c: CtxView, m: Mode, on: bool) -> Seq<TodoView> {
    let want = c.profile.edp_policy.resolved(on);
    if want || c.inputs.ext_mon_count > 0 {
        seq![Task::Emit(tasks::command(m.shadow, Cmd::SetEdp { on: want }))]
    } else {
        seq![]
    }
}

/// The tasks of entering a state.
pub open spec fn entering(
    c: CtxView,
    m: Mode,
    state: State,
    entry: Entry,
    from: State,
    kind: EventKind,
) -> Seq<TodoView> {
    match state {
        State::LidOpen => seq![Task::Emit(Action::CancelGraceTimer)] + edp_tasks(c, m, true),
        State::Docked => seq![Task::Emit(Action::CancelGraceTimer)] + edp_tasks(c, m, false),
        State::Deferred => seq![Task::Emit(Action::CancelGraceTimer)] + edp_tasks(c, m, false)
            + seq![Task::Emit(tasks::command(m.shadow, Cmd::PauseMedia))],
        State::Countdown => edp_tasks(c, m, false) + seq![
            Task::Main(MainTask::StartGrace { fresh: entry == Entry::Fresh }),
        ],
        State::Suspending => seq![
            Task::Emit(Action::CancelGraceTimer),
            Task::Main(MainTask::SuspendTail { from, kind }),
        ],
    }
}

/// Adds the tasks that set the internal panel.
pub fn push_edp(out: &mut Vec<Todo>, ctx: &Context, m: Mode, on: bool)
    ensures
        tasks::todos(final(out)@) == tasks::todos(old(out)@) + edp_tasks(ctx@, m, on),
{
    let want = ctx.profile.edp_policy.resolve(on);
    let ghost before = tasks::todos(out@);
    if want || edp_may_disable(ctx.inputs.ext_mon_count) {
        let t = Task::Emit(as_command(m.shadow, Cmd::SetEdp { on: want }));
        out.push(t);
        assert(tasks::todos(out@) =~= before + seq![t@]);
    } else {
        assert(tasks::todos(out@) =~= before + Seq::<TodoView>::empty());
    }
}

/// The tasks of entering a state: what makes the world fit it. Asserting a countdown
/// again must not extend a timer that is running.
pub fn on_enter(
    ctx: &Context,
    m: Mode,
    state: State,
    entry: Entry,
    from: State,
    kind: EventKind,
) -> (r: Vec<Todo>)
    ensures
        tasks::todos(r@) == entering(ctx@, m, state, entry, from, kind),
{
    let mut out = no_tasks();
    match state {
        State::LidOpen => {
            push_task(&mut out, Task::Emit(Action::CancelGraceTimer));
            push_edp(&mut out, ctx, m, true);
        },
        State::Docked => {
            push_task(&mut out, Task::Emit(Action::CancelGraceTimer));
            push_edp(&mut out, ctx, m, false);
        },
        State::Deferred => {
            push_task(&mut out, Task::Emit(Action::CancelGraceTimer));
            push_edp(&mut out, ctx, m, false);
            push_task(&mut out, Task::Emit(as_command(m.shadow, Cmd::PauseMedia)));
        },
        State::Countdown => {
            push_edp(&mut out, ctx, m, false);
            push_task(&mut out, Task::Main(MainTask::StartGrace { fresh: entry == Entry::Fresh }));
        },
        State::Suspending => {
            push_task(&mut out, Task::Emit(Action::CancelGraceTimer));
            push_task(&mut out, Task::Main(MainTask::SuspendTail { from, kind }));
        },
    }
    assert(tasks::todos(out@) =~= entering(ctx@, m, state, entry, from, kind));
    out
}

// ----------------------------------------------------------------- main machine

/// The context in another state.
pub open spec fn in_state(c: CtxView, state: State) -> CtxView {
    CtxView { inputs: Inputs { state, ..c.inputs }, ..c }
}

/// The context with or without a standing suspend request.
pub open spec fn with_request(c: CtxView, standing: bool) -> CtxView {
    CtxView { inputs: Inputs { suspend_requested: standing, ..c.inputs }, ..c }
}

/// What the main machine makes of an event. It does not take the suspending state on
/// until the suspend was called for.
pub open spec fn evaluated(c: CtxView, m: Mode, kind: EventKind) -> (CtxView, OutcomeView) {
    let from = c.inputs.state;
    match crate::fsm::desired_of(from, kind, c.world()) {
        Some(new) => if new == State::Suspending {
            (c, tasks::leading(entering(c, m, new, Entry::Fresh, from, kind)))
        } else {
            let d = in_state(c, new);
            (
                d,
                tasks::leading(
                    entering(d, m, new, Entry::Fresh, from, kind) + seq![
                        Task::Emit(
                            Action::Tell(
                                Note {
                                    kind: NoteKind::Transition,
                                    cause: Cause::Event(kind),
                                    from,
                                    to: new,
                                    fired: Fired::Entered(new),
                                },
                            ),
                        ),
                    ],
                ),
            )
        },
        None => (
            c,
            tasks::doing(
                Action::Tell(
                    Note {
                        kind: NoteKind::Ctx,
                        cause: Cause::Event(kind),
                        from,
                        to: from,
                        fired: Fired::Nothing,
                    },
                ),
            ),
        ),
    }
}

/// Runs the main machine for one kind of event.
pub fn evaluate(ctx: &mut Context, m: Mode, kind: EventKind) -> (r: Outcome)
    ensures
        (final(ctx)@, r@) == evaluated(old(ctx)@, m, kind),
{
    let from = ctx.inputs.state;
    match desired_state(from, kind, &ctx.world()) {
        Some(new) => {
            if new == State::Suspending {
                return lead_to(on_enter(ctx, m, new, Entry::Fresh, from, kind));
            }
            ctx.inputs.state = new;
            let mut next = on_enter(ctx, m, new, Entry::Fresh, from, kind);
            push_task(
                &mut next,
                Task::Emit(
                    Action::Tell(
                        Note {
                            kind: NoteKind::Transition,
                            cause: Cause::Event(kind),
                            from,
                            to: new,
                            fired: Fired::Entered(new),
                        },
                    ),
                ),
            );
            lead_to(next)
        },
        None => do_now(
            Action::Tell(
                Note {
                    kind: NoteKind::Ctx,
                    cause: Cause::Event(kind),
                    from,
                    to: from,
                    fired: Fired::Nothing,
                },
            ),
        ),
    }
}

/// The lock did not engage: the machine stays in the countdown, with a fresh timer.
pub open spec fn aborted(c: CtxView, from: State, kind: EventKind) -> OutcomeView {
    tasks::leading(
        seq![
            Task::Main(MainTask::StartGrace { fresh: true }),
            Task::Emit(
                Action::Tell(
                    Note {
                        kind: NoteKind::Transition,
                        cause: Cause::Event(kind),
                        from,
                        to: c.inputs.state,
                        fired: Fired::LockAborted,
                    },
                ),
            ),
        ],
    )
}

/// What the tasks of the main machine come to.
///
/// On the way into suspend a live locker has to be proven, if need be after asking
/// for a lock and waiting for it, before the suspend is called for; a remembered lock
/// is no proof. A countdown that is asserted again keeps a timer that is running. A
/// request that was withdrawn must not suspend the machine when the timer expires.
pub open spec fn main_step(c: CtxView, m: Mode, t: MainTask, reply: Reply) -> (
    CtxView,
    OutcomeView,
) {
    match t {
        MainTask::SuspendTail { from, kind } => (
            c,
            tasks::asking(Action::ProbeLocker, Task::Main(MainTask::LockerProbed { from, kind })),
        ),
        MainTask::LockerProbed { from, kind } => (
            c,
            if reply.yes() {
                tasks::leading(seq![Task::Main(MainTask::DoSuspend { from, kind })])
            } else if m.shadow || !m.session {
                tasks::leading(seq![Task::Main(MainTask::AwaitLock { from, kind })])
            } else {
                tasks::asking(Action::RequestLock, Task::Main(MainTask::AwaitLock { from, kind }))
            },
        ),
        MainTask::AwaitLock { from, kind } => (
            c,
            if c.inputs.locked {
                tasks::asking(Action::ProbeLocker, Task::Main(MainTask::LockerConfirmed { from, kind }))
            } else {
                tasks::asking(Action::WaitForLock, Task::Main(MainTask::LockAwaited { from, kind }))
            },
        ),
        MainTask::LockAwaited { from, kind } => (
            c,
            if reply.yes() {
                tasks::asking(Action::ProbeLocker, Task::Main(MainTask::LockerConfirmed { from, kind }))
            } else {
                aborted(c, from, kind)
            },
        ),
        MainTask::LockerConfirmed { from, kind } => (
            c,
            if reply.yes() {
                tasks::leading(seq![Task::Main(MainTask::DoSuspend { from, kind })])
            } else {
                aborted(c, from, kind)
            },
        ),
        MainTask::DoSuspend { from, kind } => (
            c,
            if m.shadow {
                tasks::leading(seq![Task::Main(MainTask::Suspended { from, kind })])
            } else {
                tasks::asking(Action::Suspend, Task::Main(MainTask::Suspended { from, kind }))
            },
        ),
        MainTask::Suspended { from, kind } => (
            in_state(c, State::Suspending),
            tasks::doing(
                Action::Tell(
                    Note {
                        kind: NoteKind::Transition,
                        cause: Cause::Event(kind),
                        from,
                        to: State::Suspending,
                        fired: Fired::Entered(State::Suspending),
                    },
                ),
            ),
        ),
        MainTask::Enter(entry) => (
            c,
            tasks::leading(
                entering(c, m, c.inputs.state, entry, c.inputs.state, EventKind::Reconcile),
            ),
        ),
        MainTask::StartGrace { fresh } => (
            c,
            if fresh {
                tasks::doing(Action::RestartGraceTimer)
            } else {
                tasks::asking(Action::ProbeGraceTimer, Task::Main(MainTask::GraceProbed))
            },
        ),
        MainTask::GraceProbed => (
            c,
            if reply.yes() {
                tasks::quiet()
            } else {
                tasks::doing(Action::RestartGraceTimer)
            },
        ),
        MainTask::Evaluate(kind) => evaluated(c, m, kind),
        MainTask::TimerProbe => (
            c,
            tasks::asking(Action::ProbeSuspendRequest, Task::Main(MainTask::TimerProbed)),
        ),
        MainTask::TimerProbed => (
            if reply.yes() {
                c
            } else {
                with_request(c, false)
            },
            tasks::quiet(),
        ),
        MainTask::CountMonitors => (
            c,
            tasks::asking(Action::CountMonitors, Task::Main(MainTask::MonitorsCounted)),
        ),
        MainTask::MonitorsCounted => (
            match reply.number() {
                Some(n) => CtxView { inputs: Inputs { ext_mon_count: n, ..c.inputs }, ..c },
                None => c,
            },
            tasks::quiet(),
        ),
    }
}

fn abort_suspend(ctx: &Context, from: State, kind: EventKind) -> (r: Outcome)
    ensures
        r@ == aborted(ctx@, from, kind),
{
    let mut next = no_tasks();
    push_task(&mut next, Task::Main(MainTask::StartGrace { fresh: true }));
    push_task(
        &mut next,
        Task::Emit(
            Action::Tell(
                Note {
                    kind: NoteKind::Transition,
                    cause: Cause::Event(kind),
                    from,
                    to: ctx.inputs.state,
                    fired: Fired::LockAborted,
                },
            ),
        ),
    );
    let r = lead_to(next);
    assert(r@.next =~= aborted(ctx@, from, kind).next);
    r
}

/// Takes one task of the main machine.
pub fn run_main(ctx: &mut Context, m: Mode, t: MainTask, reply: &Reply) -> (r: Outcome)
    ensures
        (final(ctx)@, r@) == main_step(old(ctx)@, m, t, *reply),
{
    match t {
        MainTask::SuspendTail { from, kind } => ask(
            Action::ProbeLocker,
            Task::Main(MainTask::LockerProbed { from, kind }),
        ),
        MainTask::LockerProbed { from, kind } => {
            if reply.is_yes() {
                lead_to_one(Task::Main(MainTask::DoSuspend { from, kind }))
            } else if m.shadow || !m.session {
                lead_to_one(Task::Main(MainTask::AwaitLock { from, kind }))
            } else {
                ask(Action::RequestLock, Task::Main(MainTask::AwaitLock { from, kind }))
            }
        },
        MainTask::AwaitLock { from, kind } => {
            if ctx.inputs.locked {
                ask(Action::ProbeLocker, Task::Main(MainTask::LockerConfirmed { from, kind }))
            } else {
                ask(Action::WaitForLock, Task::Main(MainTask::LockAwaited { from, kind }))
            }
        },
        MainTask::LockAwaited { from, kind } => {
            if reply.is_yes() {
                ask(Action::ProbeLocker, Task::Main(MainTask::LockerConfirmed { from, kind }))
            } else {
                abort_suspend(ctx, from, kind)
            }
        },
        MainTask::LockerConfirmed { from, kind } => {
            if reply.is_yes() {
                lead_to_one(Task::Main(MainTask::DoSuspend { from, kind }))
            } else {
                abort_suspend(ctx, from, kind)
            }
        },
        MainTask::DoSuspend { from, kind } => {
            if m.shadow {
                lead_to_one(Task::Main(MainTask::Suspended { from, kind }))
            } else {
                ask(Action::Suspend, Task::Main(MainTask::Suspended { from, kind }))
            }
        },
        MainTask::Suspended { from, kind } => {
            ctx.inputs.state = State::Suspending;
            do_now(
                Action::Tell(
                    Note {
                        kind: NoteKind::Transition,
                        cause: Cause::Event(kind),
                        from,
                        to: State::Suspending,
                        fired: Fired::Entered(State::Suspending),
                    },
                ),
            )
        },
        MainTask::Enter(entry) => lead_to(
            on_enter(ctx, m, ctx.inputs.state, entry, ctx.inputs.state, EventKind::Reconcile),
        ),
        MainTask::StartGrace { fresh } => {
            if fresh {
                do_now(Action::RestartGraceTimer)
            } else {
                ask(Action::ProbeGraceTimer, Task::Main(MainTask::GraceProbed))
            }
        },
        MainTask::GraceProbed => {
            if reply.is_yes() {
                be_quiet()
            } else {
                do_now(Action::RestartGraceTimer)
            }
        },
        MainTask::Evaluate(kind) => evaluate(ctx, m, kind),
        MainTask::TimerProbe => ask(
            Action::ProbeSuspendRequest,
            Task::Main(MainTask::TimerProbed),
        ),
        MainTask::TimerProbed => {
            if !reply.is_yes() {
                ctx.inputs.suspend_requested = false;
            }
            be_quiet()
        },
        MainTask::CountMonitors => ask(
            Action::CountMonitors,
            Task::Main(MainTask::MonitorsCounted),
        ),
        MainTask::MonitorsCounted => {
            match reply.count() {
                Some(n) => {
                    ctx.inputs.ext_mon_count = n;
                },
                None => {},
            }
            be_quiet()
        },
    }
}

} // verus!
