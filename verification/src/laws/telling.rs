//! How tasks are taken in turn, and what observers are told of it.
use vstd::prelude::*;

use crate::ctx::CtxView;
use crate::dispatcher;
use crate::dispatcher::DispatcherView;
use crate::fsm::{EventKind, State};
use crate::main_flow;
use crate::main_flow::Mode;
use crate::tasks::{Action, Cause, Fired, MainTask, Note, NoteKind, Reply, TodoView};

verus! {

/// The first task is taken. What it leads to comes before everything that was waiting, and
/// that stays in its order; a task that ends the event drops it all. Nothing happens where
/// nothing waits.
pub proof fn tasks_are_taken_in_turn(d: DispatcherView, now: int, reply: Reply, i: int)
    ensures
        ({
            let (e, act) = dispatcher::stepped(d, now, reply);
            let (c, o) = dispatcher::task_step(d.ctx, d.mode, d.todo[0], now, reply);
            &&& d.todo.len() == 0 ==> e == d && act is None
            &&& d.todo.len() > 0 ==> e.ctx == c && e.mode == d.mode && act == o.act
            &&& d.todo.len() > 0 && o.stop ==> e.todo.len() == 0
            &&& d.todo.len() > 0 && !o.stop ==> {
                &&& e.todo.len() == o.next.len() + d.todo.len() - 1
                &&& 0 <= i < o.next.len() ==> e.todo[i] == o.next[i]
                &&& 1 <= i < d.todo.len() ==> e.todo[o.next.len() + i - 1] == d.todo[i]
            }
        }),
{
}

/// An action that waits is handed out as it is; a note tells where the machine is.
pub proof fn waiting_actions_are_handed_out(
    c: CtxView,
    m: Mode,
    act: Action<Seq<char>>,
    kind: NoteKind,
    cause: Cause,
    now: int,
    reply: Reply,
)
    ensures
        ({
            let (e, o) = dispatcher::task_step(c, m, TodoView::Emit(act), now, reply);
            &&& e == c && o.act == Some(act) && o.next.len() == 0 && !o.stop
        }),
        ({
            let (e, o) = dispatcher::task_step(c, m, TodoView::Note(kind, cause), now, reply);
            &&& e == c && o.next.len() == 0 && !o.stop
            &&& o.act == Some(
                Action::<Seq<char>>::Tell(
                    Note {
                        kind,
                        cause,
                        from: c.inputs.state,
                        to: c.inputs.state,
                        fired: Fired::Nothing,
                    },
                ),
            )
        }),
{
}

/// A change of state is told last, with its occasion, the state it left and the one it
/// took.
pub proof fn transitions_are_told(c: CtxView, m: Mode, kind: EventKind, reply: Reply)
    ensures
        ({
            let (e, o) = main_flow::main_step(c, m, MainTask::Evaluate(kind), reply);
            e.inputs.state != c.inputs.state ==> {
                &&& o.next.len() > 0
                &&& o.next.last() == TodoView::Emit(
                    Action::Tell(
                        Note {
                            kind: NoteKind::Transition,
                            cause: Cause::Event(kind),
                            from: c.inputs.state,
                            to: e.inputs.state,
                            fired: Fired::Entered(e.inputs.state),
                        },
                    ),
                )
            }
        }),
{
}

/// A suspend is told once it was called for, and the machine is suspending from there on.
pub proof fn suspends_are_told(c: CtxView, m: Mode, from: State, kind: EventKind, reply: Reply)
    ensures
        ({
            let (e, o) = main_flow::main_step(c, m, MainTask::Suspended { from, kind }, reply);
            &&& e.inputs.state == State::Suspending
            &&& e.power == c.power && e.profile == c.profile && e.gpu == c.gpu
            &&& e.inputs.lid_closed == c.inputs.lid_closed && e.inputs.locked == c.inputs.locked
            &&& o.next.len() == 0 && !o.stop
            &&& o.act == Some(
                Action::<Seq<char>>::Tell(
                    Note {
                        kind: NoteKind::Transition,
                        cause: Cause::Event(kind),
                        from,
                        to: State::Suspending,
                        fired: Fired::Entered(State::Suspending),
                    },
                ),
            )
        }),
{
}

/// A lock that did not engage starts the countdown anew, and is told; the machine stays
/// where it is.
pub proof fn aborted_suspends_are_told(
    c: CtxView,
    m: Mode,
    from: State,
    kind: EventKind,
    reply: Reply,
)
    requires
        !reply.yes(),
    ensures
        ({
            let told = seq![
                TodoView::Main(MainTask::StartGrace { fresh: true }),
                TodoView::Emit(
                    Action::Tell(
                        Note {
                            kind: NoteKind::Transition,
                            cause: Cause::Event(kind),
                            from,
                            to: c.inputs.state,
                            fired: Fired::LockAborted,
                        },
                    ),
                ),
            ];
            let (e, o) = main_flow::main_step(c, m, MainTask::LockAwaited { from, kind }, reply);
            let (f, p) = main_flow::main_step(
                c,
                m,
                MainTask::LockerConfirmed { from, kind },
                reply,
            );
            &&& e == c && o.act is None && !o.stop && o.next == told
            &&& f == c && p.act is None && !p.stop && p.next == told
        }),
{
    let o = main_flow::main_step(c, m, MainTask::LockAwaited { from, kind }, reply).1;
    let p = main_flow::main_step(c, m, MainTask::LockerConfirmed { from, kind }, reply).1;
    assert(o.next =~= seq![o.next[0], o.next[1]]);
    assert(p.next =~= seq![p.next[0], p.next[1]]);
}

/// The way into suspend, step by step: a live locker suffices; without one a lock is asked
/// for, where there is a session to ask, and waited for, unless it is in place already; and
/// it has to be proven before the suspend is called for. A shadow calls for none.
pub proof fn the_way_into_suspend(c: CtxView, m: Mode, from: State, kind: EventKind, reply: Reply)
    ensures
        ({
            let (e, o) = main_flow::main_step(c, m, MainTask::SuspendTail { from, kind }, reply);
            &&& e == c && o.act == Some(Action::<Seq<char>>::ProbeLocker)
            &&& o.next == seq![TodoView::Main(MainTask::LockerProbed { from, kind })]
        }),
        ({
            let (e, o) = main_flow::main_step(c, m, MainTask::LockerProbed { from, kind }, reply);
            let wait = seq![TodoView::Main(MainTask::AwaitLock { from, kind })];
            &&& e == c
            &&& reply.yes() ==> o.act is None && o.next == seq![
                TodoView::Main(MainTask::DoSuspend { from, kind }),
            ]
            &&& !reply.yes() && (m.shadow || !m.session) ==> o.act is None && o.next == wait
            &&& !reply.yes() && !m.shadow && m.session ==> o.act == Some(
                Action::<Seq<char>>::RequestLock,
            ) && o.next == wait
        }),
        ({
            let (e, o) = main_flow::main_step(c, m, MainTask::AwaitLock { from, kind }, reply);
            &&& e == c
            &&& c.inputs.locked ==> o.act == Some(Action::<Seq<char>>::ProbeLocker) && o.next
                == seq![TodoView::Main(MainTask::LockerConfirmed { from, kind })]
            &&& !c.inputs.locked ==> o.act == Some(Action::<Seq<char>>::WaitForLock) && o.next
                == seq![TodoView::Main(MainTask::LockAwaited { from, kind })]
        }),
        reply.yes() ==> {
            let (e, o) = main_flow::main_step(c, m, MainTask::LockAwaited { from, kind }, reply);
            let (f, p) = main_flow::main_step(
                c,
                m,
                MainTask::LockerConfirmed { from, kind },
                reply,
            );
            &&& e == c && o.act == Some(Action::<Seq<char>>::ProbeLocker)
            &&& o.next == seq![TodoView::Main(MainTask::LockerConfirmed { from, kind })]
            &&& f == c && p.act is None
            &&& p.next == seq![TodoView::Main(MainTask::DoSuspend { from, kind })]
        },
        ({
            let (e, o) = main_flow::main_step(c, m, MainTask::DoSuspend { from, kind }, reply);
            &&& e == c
            &&& o.next == seq![TodoView::Main(MainTask::Suspended { from, kind })]
            &&& m.shadow ==> o.act is None
            &&& !m.shadow ==> o.act == Some(Action::<Seq<char>>::Suspend)
        }),
{
    let tail = main_flow::main_step(c, m, MainTask::SuspendTail { from, kind }, reply).1;
    assert(tail.next =~= seq![TodoView::Main(MainTask::LockerProbed { from, kind })]);
    let probed = main_flow::main_step(c, m, MainTask::LockerProbed { from, kind }, reply).1;
    assert(probed.next =~= seq![probed.next[0]]);
    let wait = main_flow::main_step(c, m, MainTask::AwaitLock { from, kind }, reply).1;
    assert(wait.next =~= seq![wait.next[0]]);
    if reply.yes() {
        let waited = main_flow::main_step(c, m, MainTask::LockAwaited { from, kind }, reply).1;
        assert(waited.next =~= seq![waited.next[0]]);
        let sure = main_flow::main_step(c, m, MainTask::LockerConfirmed { from, kind }, reply).1;
        assert(sure.next =~= seq![sure.next[0]]);
    }
    let done = main_flow::main_step(c, m, MainTask::DoSuspend { from, kind }, reply).1;
    assert(done.next =~= seq![done.next[0]]);
}

/// The start is told as a snapshot of the state that was entered, and GPU advice is gone
/// into last, for the pin.
pub proof fn the_start_is_told(c: CtxView, m: Mode)
    ensures
        ({
            let d = dispatcher::starting(c, m);
            let n = d.todo.len();
            let state = d.ctx.inputs.state;
            &&& n >= 2
            &&& d.mode == m
            &&& !d.ctx.inputs.suspend_requested
            &&& d.todo[n - 2] == TodoView::Emit(
                Action::Tell(
                    Note {
                        kind: NoteKind::Snapshot,
                        cause: Cause::Startup,
                        from: state,
                        to: state,
                        fired: Fired::Entered(state),
                    },
                ),
            )
            &&& d.todo[n - 1] == TodoView::Gpu(crate::tasks::GpuTask::Gate(Cause::Startup))
            &&& !m.shadow ==> d.todo[0] == TodoView::Emit(Action::ClearSuspendRequest)
        }),
{
}

/// Every kind of event goes by a label of its own.
pub proof fn kinds_have_labels_of_their_own(a: EventKind, b: EventKind)
    requires
        a != b,
    ensures
        crate::event::kind_label(a) != crate::event::kind_label(b),
        crate::event::kind_label(EventKind::LidClose) == "LidClose"@,
        crate::event::kind_label(EventKind::LidOpen) == "LidOpen"@,
        crate::event::kind_label(EventKind::TimerExpired) == "TimerExpired"@,
        crate::event::kind_label(EventKind::Resumed) == "Resumed"@,
        crate::event::kind_label(EventKind::AcPlugged) == "AcPlugged"@,
        crate::event::kind_label(EventKind::AcUnplugged) == "AcUnplugged"@,
{
    reveal_strlit("LidClose");
    reveal_strlit("LidOpen");
    reveal_strlit("MonitorAdded");
    reveal_strlit("MonitorRemoved");
    reveal_strlit("InhibitorOn");
    reveal_strlit("InhibitorOff");
    reveal_strlit("LockEngaged");
    reveal_strlit("LockReleased");
    reveal_strlit("AcPlugged");
    reveal_strlit("AcUnplugged");
    reveal_strlit("TimerExpired");
    reveal_strlit("Resumed");
    reveal_strlit("Reconcile");
    reveal_strlit("MonitorsChanged");
    reveal_strlit("CtxRepaired");
    reveal_strlit("PlatformProfileChanged");
    reveal_strlit("GpuOverrideChanged");
    reveal_strlit("BatteryLowChanged");
    reveal_strlit("PowerOverrideChanged");
    reveal_strlit("PowerAcSettled");
    reveal_strlit("ProfilesChanged");
    reveal_strlit("SuspendRequestChanged");
    let (x, y) = (crate::event::kind_label(a), crate::event::kind_label(b));
    if x == y {
        assert(x.len() == y.len() && x[0] == y[0] && x[2] == y[2] && x[3] == y[3]);
    }
}

} // verus!
