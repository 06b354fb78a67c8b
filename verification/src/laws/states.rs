//! What entering a state does to the world, the way into suspend, and what the
//! reconciler puts right.
use vstd::prelude::*;

use crate::ctx::CtxView;
use crate::dispatcher;
use crate::dispatcher::DispatcherView;
use crate::effectors::Cmd;
use crate::event::{Event, ReconcileSnapshot};
use crate::fsm::{EventKind, State};
use crate::main_flow;
use crate::main_flow::Mode;
use crate::profiles::EdpPolicy;
use crate::reconcile;
use crate::safety;
use crate::tasks::{Action, BatteryTask, Entry, MainTask, PowerTask, ProfileTask, ReconcileTask, Reply, TodoView};

verus! {

// -------------------------------------------------------------------------- the panel

/// A command as it is handed out: run, or only told of by a daemon that watches.
pub open spec fn as_told(m: Mode, cmd: Cmd<Seq<char>>) -> Action<Seq<char>> {
    if m.shadow {
        Action::Shadowed(cmd)
    } else {
        Action::Run(cmd)
    }
}

/// The command that turns the internal panel on or off is among the tasks.
pub open spec fn sets_panel(s: Seq<TodoView>, m: Mode, on: bool) -> bool {
    s.contains(TodoView::Emit(as_told(m, Cmd::SetEdp { on })))
}

/// The panel is on while the lid is open, and off in every other state that has an
/// external monitor to show things on, unless the profile says otherwise: one that
/// enables the panel never turns it off, and one that disables it never turns it on.
/// Without an external monitor the panel is never turned off. A machine about to suspend
/// leaves it alone.
pub proof fn the_panel_follows_the_state(
    c: CtxView,
    m: Mode,
    state: State,
    entry: Entry,
    from: State,
    kind: EventKind,
)
    ensures
        ({
            let s = main_flow::entering(c, m, state, entry, from, kind);
            let docked = c.inputs.ext_mon_count > 0;
            let policy = c.profile.edp_policy;
            let awake = state != State::Suspending;
            &&& sets_panel(s, m, true) <==> awake && (policy == EdpPolicy::Enable || policy
                == EdpPolicy::Auto && state == State::LidOpen)
            &&& sets_panel(s, m, false) <==> awake && docked && (policy == EdpPolicy::Disable
                || policy == EdpPolicy::Auto && state != State::LidOpen)
        }),
{
    let s = main_flow::entering(c, m, state, entry, from, kind);
    let on = TodoView::Emit(as_told(m, Cmd::SetEdp { on: true }));
    let off = TodoView::Emit(as_told(m, Cmd::SetEdp { on: false }));
    let open = state == State::LidOpen;
    let edp = main_flow::edp_tasks(c, m, open);
    if edp.len() > 0 {
        let want = edp[0];
        if state == State::LidOpen || state == State::Docked || state == State::Deferred {
            assert(s[1] == want);
        } else if state == State::Countdown {
            assert(s[0] == want);
        }
    }
    assert(s.len() <= 3);
    assert(s.contains(on) ==> s[0] == on || s[1] == on || s[2] == on);
    assert(s.contains(off) ==> s[0] == off || s[1] == off || s[2] == off);
}

/// Opening the lid of a docked machine lights the panel, and closing the lid of a machine
/// with an external monitor turns it off: that is the second action of the run, after the
/// grace timer was cancelled.
pub proof fn the_lid_moves_the_panel(
    d: DispatcherView,
    now: int,
    closed: bool,
    script: Seq<(int, Reply)>,
)
    requires
        d.ctx.inputs.lid_present,
        !d.ctx.inputs.suspend_requested,
        d.ctx.inputs.ext_mon_count > 0,
        d.ctx.profile.edp_policy == EdpPolicy::Auto,
        d.ctx.inputs.state == (if closed {
            State::LidOpen
        } else {
            State::Docked
        }),
        script.len() > 2,
    ensures
        ({
            let start = dispatcher::receiving(d, now, Event::Lid(closed));
            &&& safety::handed_out(start, script, 0) is None
            &&& safety::handed_out(start, script, 1) == Some(Action::<Seq<char>>::CancelGraceTimer)
            &&& safety::handed_out(start, script, 2) == Some(
                as_told(d.mode, Cmd::SetEdp { on: !closed }),
            )
        }),
{
    let start = dispatcher::receiving(d, now, Event::Lid(closed));
    assert(start.todo =~= seq![TodoView::Main(MainTask::Evaluate(start_kind(closed)))]);
    let zero = script.take(0);
    let one = script.take(1);
    let two = script.take(2);
    assert(zero =~= Seq::<(int, Reply)>::empty());
    assert(one.drop_last() =~= zero);
    assert(two.drop_last() =~= one);
    let d1 = safety::ran(start, one);
    let d2 = safety::ran(start, two);
    let (c, o) = main_flow::evaluated(start.ctx, start.mode, start_kind(closed));
    assert(d1.todo =~= o.next);
    assert(d1.todo[0] == TodoView::Emit(Action::CancelGraceTimer));
    assert(d1.todo[1] == TodoView::Emit(as_told(d.mode, Cmd::SetEdp { on: !closed })));
    assert(d2.todo =~= d1.todo.skip(1));
}

spec fn start_kind(closed: bool) -> EventKind {
    if closed {
        EventKind::LidClose
    } else {
        EventKind::LidOpen
    }
}

// ------------------------------------------------------------- timer, media, suspend

/// A countdown starts the grace timer, afresh where the state is new; every other state
/// cancels it. Media is paused where a suspend is deferred, and nowhere else. Only
/// suspending sets out on the way into suspend.
pub proof fn states_see_to_the_timer(
    c: CtxView,
    m: Mode,
    state: State,
    entry: Entry,
    from: State,
    kind: EventKind,
)
    ensures
        ({
            let s = main_flow::entering(c, m, state, entry, from, kind);
            let fresh = TodoView::Main(MainTask::StartGrace { fresh: true });
            let kept = TodoView::Main(MainTask::StartGrace { fresh: false });
            &&& s.contains(TodoView::Emit(Action::CancelGraceTimer)) <==> state != State::Countdown
            &&& s.contains(fresh) <==> state == State::Countdown && entry == Entry::Fresh
            &&& s.contains(kept) <==> state == State::Countdown && entry == Entry::Reassert
            &&& s.contains(TodoView::Emit(as_told(m, Cmd::PauseMedia))) <==> state
                == State::Deferred
            &&& s.contains(TodoView::Main(MainTask::SuspendTail { from, kind })) <==> state
                == State::Suspending
        }),
{
    let s = main_flow::entering(c, m, state, entry, from, kind);
    assert(s.len() <= 3);
    assert(s.len() > 0);
    assert(s[0] == s.first());
    assert(s[s.len() - 1] == s.last());
    assert forall|t: TodoView| #[trigger] s.contains(t) <==> (s.len() > 0 && s[0] == t) || (s.len()
        > 1 && s[1] == t) || (s.len() > 2 && s[2] == t) by {
        if s.len() > 0 && s[0] == t {
            assert(s.contains(t));
        }
    }
    match state {
        State::Countdown => {
            assert(s.last() == TodoView::Main(
                MainTask::StartGrace { fresh: entry == Entry::Fresh },
            ));
        },
        State::Deferred => {
            assert(s.last() == TodoView::Emit(as_told(m, Cmd::PauseMedia)));
        },
        _ => {},
    }
}

/// A grace timer is started afresh where that is asked for; where it is only asserted
/// again, one that is running is left alone, and one that is not is started.
pub proof fn the_timer_is_started_when_due(c: CtxView, m: Mode, fresh: bool, reply: Reply)
    ensures
        ({
            let first = main_flow::main_step(c, m, MainTask::StartGrace { fresh }, reply).1;
            let probed = main_flow::main_step(c, m, MainTask::GraceProbed, reply).1;
            &&& fresh ==> first.act == Some(Action::<Seq<char>>::RestartGraceTimer)
                && first.next.len() == 0
            &&& !fresh ==> first.act == Some(Action::<Seq<char>>::ProbeGraceTimer) && first.next
                == seq![TodoView::Main(MainTask::GraceProbed)]
            &&& probed.next.len() == 0
            &&& reply.yes() ==> probed.act is None
            &&& !reply.yes() ==> probed.act == Some(Action::<Seq<char>>::RestartGraceTimer)
        }),
{
}

/// An expired timer takes a countdown that nothing speaks against into suspend: where a
/// locker is proven at once, the timer is cancelled, the locker probed and the machine
/// suspended, and the state is then the suspending one. A daemon that watches only takes
/// the state on.
pub proof fn expired_countdowns_suspend(
    d: DispatcherView,
    now: int,
    script: Seq<(int, Reply)>,
)
    requires
        d.ctx.inputs.state == State::Countdown,
        d.ctx.inputs.lid_closed,
        d.ctx.inputs.ext_mon_count == 0,
        !d.ctx.inputs.suspend_requested,
        !d.ctx.inputs.logind_inhibitor && !d.ctx.inputs.wayland_inhibitor || d.ctx.inputs.locked,
        script.len() >= 6,
        script[3].1.yes(),
    ensures
        ({
            let start = dispatcher::receiving(d, now, Event::TimerExpired);
            &&& safety::handed_out(start, script, 1) == Some(Action::<Seq<char>>::CancelGraceTimer)
            &&& safety::handed_out(start, script, 2) == Some(Action::<Seq<char>>::ProbeLocker)
            &&& safety::handed_out(start, script, 4) == (if d.mode.shadow {
                None
            } else {
                Some(Action::<Seq<char>>::Suspend)
            })
            &&& safety::ran(start, script.take(6)).ctx.inputs.state == State::Suspending
        }),
{
    let start = dispatcher::receiving(d, now, Event::TimerExpired);
    let from = State::Countdown;
    let kind = EventKind::TimerExpired;
    let tail = MainTask::SuspendTail { from, kind };
    lemma_expiry(d, now, script[0].1);
    assert(script.take(0) =~= Seq::<(int, Reply)>::empty());
    lemma_next(start, script, 0);
    lemma_only_main(start, MainTask::Evaluate(kind), script[0].0, script[0].1);
    let d1 = safety::ran(start, script.take(1));
    lemma_next(start, script, 1);
    lemma_emit_first(d1, Action::CancelGraceTimer, TodoView::Main(tail), script[1].0, script[1].1);
    let d2 = safety::ran(start, script.take(2));
    lemma_way_down(d2, from, kind, start, script);
}

proof fn lemma_way_down(
    d2: DispatcherView,
    from: State,
    kind: EventKind,
    start: DispatcherView,
    script: Seq<(int, Reply)>,
)
    requires
        script.len() >= 6,
        script[3].1.yes(),
        d2 == safety::ran(start, script.take(2)),
        d2.todo == seq![TodoView::Main(MainTask::SuspendTail { from, kind })],
    ensures
        safety::handed_out(start, script, 2) == Some(Action::<Seq<char>>::ProbeLocker),
        safety::handed_out(start, script, 4) == (if d2.mode.shadow {
            None
        } else {
            Some(Action::<Seq<char>>::Suspend)
        }),
        safety::ran(start, script.take(6)).ctx.inputs.state == State::Suspending,
{
    lemma_next(start, script, 2);
    lemma_next(start, script, 3);
    lemma_next(start, script, 4);
    lemma_next(start, script, 5);
    lemma_only_main(d2, MainTask::SuspendTail { from, kind }, script[2].0, script[2].1);
    let d3 = safety::ran(start, script.take(3));
    lemma_only_main(d3, MainTask::LockerProbed { from, kind }, script[3].0, script[3].1);
    let d4 = safety::ran(start, script.take(4));
    lemma_only_main(d4, MainTask::DoSuspend { from, kind }, script[4].0, script[4].1);
    let d5 = safety::ran(start, script.take(5));
    lemma_only_main(d5, MainTask::Suspended { from, kind }, script[5].0, script[5].1);
}

proof fn lemma_expiry(d: DispatcherView, now: int, reply: Reply)
    requires
        d.ctx.inputs.state == State::Countdown,
        d.ctx.inputs.lid_closed,
        d.ctx.inputs.ext_mon_count == 0,
        !d.ctx.inputs.suspend_requested,
        !d.ctx.inputs.logind_inhibitor && !d.ctx.inputs.wayland_inhibitor || d.ctx.inputs.locked,
    ensures
        ({
            let start = dispatcher::receiving(d, now, Event::TimerExpired);
            let kind = EventKind::TimerExpired;
            &&& start.ctx == d.ctx && start.mode == d.mode
            &&& start.todo == seq![TodoView::Main(MainTask::Evaluate(kind))]
            &&& main_flow::main_step(d.ctx, d.mode, MainTask::Evaluate(kind), reply).1
                == crate::tasks::leading(
                seq![
                    TodoView::Emit(Action::CancelGraceTimer),
                    TodoView::Main(MainTask::SuspendTail { from: State::Countdown, kind }),
                ],
            )
        }),
{
    let start = dispatcher::receiving(d, now, Event::TimerExpired);
    assert(start.todo =~= seq![TodoView::Main(MainTask::Evaluate(EventKind::TimerExpired))]);
}

proof fn lemma_emit_first(
    d: DispatcherView,
    a: Action<Seq<char>>,
    t: TodoView,
    now: int,
    reply: Reply,
)
    requires
        d.todo == seq![TodoView::Emit(a), t],
    ensures
        dispatcher::stepped(d, now, reply).1 == Some(a),
        dispatcher::stepped(d, now, reply).0.todo == seq![t],
        dispatcher::stepped(d, now, reply).0.mode == d.mode,
{
    assert(d.todo.skip(1) =~= seq![t]);
    assert(Seq::<TodoView>::empty() + d.todo.skip(1) =~= seq![t]);
}

proof fn lemma_next(d: DispatcherView, script: Seq<(int, Reply)>, i: int)
    requires
        0 <= i < script.len(),
    ensures
        safety::ran(d, script.take(i + 1)) == dispatcher::stepped(
            safety::ran(d, script.take(i)),
            script[i].0,
            script[i].1,
        ).0,
{
    assert(script.take(i + 1).drop_last() =~= script.take(i));
}

proof fn lemma_only_main(d: DispatcherView, t: MainTask, now: int, reply: Reply)
    requires
        d.todo == seq![TodoView::Main(t)],
        !main_flow::main_step(d.ctx, d.mode, t, reply).1.stop,
    ensures
        ({
            let (e, act) = dispatcher::stepped(d, now, reply);
            let (c, o) = main_flow::main_step(d.ctx, d.mode, t, reply);
            &&& e.ctx == c && e.mode == d.mode && e.todo == o.next && act == o.act
        }),
{
    let o = main_flow::main_step(d.ctx, d.mode, t, reply).1;
    assert(d.todo.skip(1) =~= Seq::<TodoView>::empty());
    assert(o.next + d.todo.skip(1) =~= o.next);
}

/// Where no locker is live, a lock is asked for where there is a session to ask, and
/// waited for; a lock that then proves live suspends the machine, and one that does not
/// engage leaves it in the countdown with a fresh timer.
pub proof fn a_lock_is_asked_for(c: CtxView, m: Mode, from: State, kind: EventKind, reply: Reply)
    ensures
        ({
            let probed = main_flow::main_step(c, m, MainTask::LockerProbed { from, kind }, reply).1;
            let awaited = main_flow::main_step(c, m, MainTask::LockAwaited { from, kind }, reply);
            let sure = main_flow::main_step(c, m, MainTask::LockerConfirmed { from, kind }, reply);
            let due = TodoView::Main(MainTask::DoSuspend { from, kind });
            let again = TodoView::Main(MainTask::StartGrace { fresh: true });
            &&& !reply.yes() && !m.shadow && m.session ==> probed.act == Some(
                Action::<Seq<char>>::RequestLock,
            )
            &&& !reply.yes() ==> probed.next == seq![
                TodoView::Main(MainTask::AwaitLock { from, kind }),
            ]
            &&& reply.yes() ==> probed.next == seq![due] && sure.1.next == seq![due]
            &&& reply.yes() ==> awaited.1.act == Some(Action::<Seq<char>>::ProbeLocker)
            &&& !reply.yes() ==> awaited.1.next.contains(again) && sure.1.next.contains(again)
            &&& awaited.0 == c && sure.0 == c
        }),
{
    let awaited = main_flow::main_step(c, m, MainTask::LockAwaited { from, kind }, reply);
    let sure = main_flow::main_step(c, m, MainTask::LockerConfirmed { from, kind }, reply);
    if !reply.yes() {
        assert(awaited.1.next[0] == TodoView::Main(MainTask::StartGrace { fresh: true }));
        assert(sure.1.next[0] == TodoView::Main(MainTask::StartGrace { fresh: true }));
    }
}

/// A request that was withdrawn before the timer expired is gone when the machine looks
/// again, and one that still stands stays.
pub proof fn withdrawn_requests_do_not_suspend(c: CtxView, m: Mode, reply: Reply)
    ensures
        main_flow::main_step(c, m, MainTask::TimerProbed, reply).0.inputs.suspend_requested == (
        c.inputs.suspend_requested && reply.yes()),
        main_flow::main_step(c, m, MainTask::TimerProbe, reply).1.act == Some(
            Action::<Seq<char>>::ProbeSuspendRequest,
        ),
{
}

/// A count of the monitors is taken in; where none could be had, the one before stands.
pub proof fn monitor_counts_are_taken_in(c: CtxView, m: Mode, n: Option<u32>)
    ensures
        main_flow::main_step(
            c,
            m,
            MainTask::MonitorsCounted,
            Reply::Count(n),
        ).0.inputs.ext_mon_count == (match n {
            Some(n) => n,
            None => c.inputs.ext_mon_count,
        }),
{
}

// ---------------------------------------------------------------------- reconciling

/// The reconciler makes the panel what the state and the profile call for, and leaves it
/// alone where it already is, where nothing is known of it, and where turning it off
/// would leave no output.
pub proof fn the_reconciler_puts_the_panel_right(
    c: CtxView,
    m: Mode,
    snap: ReconcileSnapshot,
    reply: Reply,
)
    ensures
        ({
            let s = reconcile::reconcile_step(c, m, ReconcileTask::Enforce(snap), reply).1.next;
            let policy = c.profile.edp_policy;
            let lit = policy == EdpPolicy::Enable || policy == EdpPolicy::Auto && c.inputs.state
                == State::LidOpen;
            &&& sets_panel(s, m, true) <==> lit && snap.edp_disabled == Some(true)
            &&& sets_panel(s, m, false) <==> !lit && snap.edp_disabled == Some(false)
                && c.inputs.ext_mon_count > 0
        }),
{
    let s = reconcile::reconcile_step(c, m, ReconcileTask::Enforce(snap), reply).1.next;
    let panel = reconcile::panel_tasks(c, m, snap.edp_disabled);
    let on = TodoView::Emit(as_told(m, Cmd::SetEdp { on: true }));
    let off = TodoView::Emit(as_told(m, Cmd::SetEdp { on: false }));
    assert(s.len() <= 3);
    if panel.len() > 0 {
        assert(s[0] == panel[0]);
    }
    assert(s.contains(on) ==> s[0] == on || s[1] == on || s[2] == on);
    assert(s.contains(off) ==> s[0] == off || s[1] == off || s[2] == off);
}

/// Screens that are dark though they should show something are lit: in the open and the
/// docked state, at once on an unlocked machine, on a locked one where the cursor moved
/// since the pass before. The cursor is remembered for the next pass.
pub proof fn stuck_screens_are_lit(c: CtxView, m: Mode, snap: ReconcileSnapshot, reply: Reply)
    ensures
        ({
            let (e, o) = reconcile::reconcile_step(c, m, ReconcileTask::Enforce(snap), reply);
            let moved = match (c.inputs.last_cursor_pos, snap.cursor_pos) {
                (Some(a), Some(b)) => a.0 != b.0 || a.1 != b.1,
                _ => false,
            };
            &&& o.next.contains(TodoView::Emit(as_told(m, Cmd::DpmsOn))) <==> snap.dpms_off == Some(
                true,
            ) && (c.inputs.state == State::LidOpen || c.inputs.state == State::Docked) && (
            !c.inputs.locked || moved)
            &&& e.inputs.last_cursor_pos == snap.cursor_pos
        }),
{
    let s = reconcile::reconcile_step(c, m, ReconcileTask::Enforce(snap), reply).1.next;
    let panel = reconcile::panel_tasks(c, m, snap.edp_disabled);
    let screen = reconcile::screen_tasks(c, m, snap);
    let lit = TodoView::Emit(as_told(m, Cmd::DpmsOn));
    assert(s.len() <= 3);
    if screen.len() > 0 {
        assert(s[panel.len() as int] == lit);
    }
    assert(s.contains(lit) ==> s[0] == lit || s[1] == lit || s[2] == lit);
}

/// A repair drives what depends on it: monitors that came or went lead to a choice of
/// profile, a changed lock to its mirror, changed monitors or charger to power policy and
/// the battery check, and any changed input of the main machine to its evaluation. A
/// charger that was repaired counts as settled.
pub proof fn repairs_drive_what_depends_on_them(
    c: CtxView,
    m: Mode,
    snap: ReconcileSnapshot,
    reply: Reply,
)
    ensures
        ({
            let (e, o) = reconcile::reconcile_step(c, m, ReconcileTask::Probed(snap), reply);
            let (i, j) = (c.inputs, e.inputs);
            let power = i.ext_mon_count != j.ext_mon_count || i.on_ac != j.on_ac;
            &&& o.next.contains(TodoView::Emit(Action::RestartProfileDebounce)) <==> i.ext_mon_count
                != j.ext_mon_count
            &&& o.next.contains(TodoView::Emit(Action::MirrorLock(j.locked))) <==> i.locked
                != j.locked
            &&& o.next.contains(TodoView::Power(PowerTask::Begin)) <==> power
            &&& o.next.contains(TodoView::Battery(BatteryTask::Check { gate: None })) <==> power
            &&& o.next.contains(TodoView::Main(MainTask::Evaluate(EventKind::CtxRepaired)))
                <==> i.lid_closed != j.lid_closed || i.suspend_requested != j.suspend_requested
                || i.ext_mon_count != j.ext_mon_count || i.logind_inhibitor != j.logind_inhibitor
                || i.wayland_inhibitor != j.wayland_inhibitor || i.locked != j.locked
            &&& o.next.last() == TodoView::Reconcile(ReconcileTask::AfterRepair(snap))
            &&& e.power.on_ac_settled == (if power {
                j.on_ac
            } else {
                c.power.on_ac_settled
            })
            &&& j.suspend_requested == reply.yes()
            &&& i.lid_present ==> j.lid_closed == snap.lid_closed
            &&& j.ext_mon_count == snap.ext_mon_count
            &&& j.wayland_inhibitor == snap.wayland_inhibitor
            &&& j.logind_inhibitor == snap.logind_inhibitor
            &&& snap.locked is None ==> j.locked == i.locked
            &&& snap.on_ac is None ==> j.on_ac == i.on_ac
        }),
{
    let (e, o) = reconcile::reconcile_step(c, m, ReconcileTask::Probed(snap), reply);
    let s = o.next;
    let (i, j) = (c.inputs, e.inputs);
    let a: int = if i.ext_mon_count != j.ext_mon_count {
        1
    } else {
        0
    };
    let b: int = if i.locked != j.locked {
        1
    } else {
        0
    };
    let p: int = if reconcile::power_drift(i, j) {
        2
    } else {
        0
    };
    if a == 1 {
        assert(s[0] == TodoView::Emit(Action::RestartProfileDebounce));
    }
    if b == 1 {
        assert(s[a] == TodoView::Emit(Action::MirrorLock(j.locked)));
    }
    if p == 2 {
        assert(s[a + b] == TodoView::Power(PowerTask::Begin));
        assert(s[a + b + 1] == TodoView::Battery(BatteryTask::Check { gate: None }));
    }
    if reconcile::fsm_drift(i, j) {
        assert(s[a + b + p] == TodoView::Main(MainTask::Evaluate(EventKind::CtxRepaired)));
    }
    assert forall|k: int| 0 <= k < s.len() implies {
        &&& #[trigger] s[k] is Emit && s[k]->Emit_0 is RestartProfileDebounce ==> a == 1
        &&& s[k] is Emit && s[k]->Emit_0 is MirrorLock ==> b == 1
        &&& s[k] is Power || s[k] is Battery ==> p == 2
        &&& s[k] is Main ==> reconcile::fsm_drift(i, j)
    } by {
    }
}

/// After its repairs an awake machine takes in a switched profile before anything is put
/// right; a suspending one is left alone.
pub proof fn reconciling_stops_short_of_suspend(
    c: CtxView,
    m: Mode,
    snap: ReconcileSnapshot,
    reply: Reply,
)
    ensures
        ({
            let (e, o) = reconcile::reconcile_step(c, m, ReconcileTask::AfterRepair(snap), reply);
            &&& e == c
            &&& c.inputs.state == State::Suspending ==> o.next.len() == 0
            &&& c.inputs.state != State::Suspending ==> o.next == seq![
                TodoView::Profile(ProfileTask::Ingest),
                TodoView::Reconcile(ReconcileTask::Enforce(snap)),
            ]
        }),
{
}

} // verus!
