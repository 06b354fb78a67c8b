//! What whole runs of a policy check come to.
use vstd::prelude::*;

use crate::ctx::CtxView;
use crate::dispatcher;
use crate::dispatcher::DispatcherView;
use crate::main_flow::Mode;
use crate::power_flow;
use crate::power_policy;
use crate::power_policy::OverrideOutcome;
use crate::safety;
use crate::tasks::{PowerTask, Reply, Task, TodoView};

verus! {

/// A dispatcher with a policy check before it, and nothing else.
pub open spec fn checking(c: CtxView, m: Mode) -> DispatcherView {
    DispatcherView { ctx: c, mode: m, todo: seq![Task::Power(PowerTask::Begin)] }
}

/// The override has been looked at.
spec fn looked_at(c: CtxView) -> bool {
    power_policy::override_checked(c.power, c.base()) == (c.power, OverrideOutcome::Untouched)
}

/// The profile is applied as far as it can be.
spec fn applied_as_wanted(c: CtxView) -> bool {
    c.power.applied == Some(c.wanted_profile()) || !c.power.powerd_available
}

/// Messages stand before the application and the edges.
spec fn about_to_apply(todo: Seq<TodoView>) -> bool {
    &&& todo.len() >= 2
    &&& forall|i: int| 0 <= i < todo.len() - 2 ==> #[trigger] todo[i] is Emit
    &&& todo[todo.len() - 2] == TodoView::Power(PowerTask::Apply)
    &&& todo[todo.len() - 1] == TodoView::Power(PowerTask::Edges)
}

/// Where a run of a policy check can be.
spec fn on_the_way(d: DispatcherView) -> bool {
    ||| d.todo =~= seq![Task::Power(PowerTask::Begin)]
    ||| looked_at(d.ctx) && about_to_apply(d.todo)
    ||| looked_at(d.ctx) && d.todo =~= seq![
        Task::Power(PowerTask::Applied(d.ctx.wanted_profile())),
        Task::Power(PowerTask::Edges),
    ]
    ||| looked_at(d.ctx) && applied_as_wanted(d.ctx) && d.todo =~= seq![
        Task::Power(PowerTask::Edges),
    ]
    ||| power_flow::policy_settled(d.ctx) && forall|i: int|
        0 <= i < d.todo.len() ==> #[trigger] d.todo[i] is Light
}

proof fn lemma_way_step(d: DispatcherView, now: int, reply: Reply)
    requires
        on_the_way(d),
    ensures
        on_the_way(dispatcher::stepped(d, now, reply).0),
{
    let e = dispatcher::stepped(d, now, reply).0;
    if d.todo.len() > 0 {
        let (c, o) = dispatcher::task_step(d.ctx, d.mode, d.todo[0], now, reply);
        match d.todo[0] {
            Task::Power(PowerTask::Begin) => {
                assert(d.todo.skip(1) =~= seq![]);
                assert(about_to_apply(e.todo));
            },
            Task::Power(PowerTask::Apply) => {
                assert(d.todo.skip(1) =~= seq![Task::Power(PowerTask::Edges)]);
            },
            Task::Power(PowerTask::Applied(_)) => {
                assert(d.todo.skip(1) =~= seq![Task::Power(PowerTask::Edges)]);
            },
            Task::Power(PowerTask::Edges) => {
                assert(d.todo.skip(1) =~= seq![]);
            },
            Task::Light(t) => {
                assert forall|i: int| 0 <= i < e.todo.len() implies #[trigger] e.todo[i] is Light by {
                    if i >= o.next.len() {
                        assert(e.todo[i] == d.todo[i - o.next.len() + 1]);
                    }
                }
            },
            _ => {
                assert(about_to_apply(d.todo));
                assert(e.todo =~= d.todo.skip(1));
                assert forall|i: int| 0 <= i < e.todo.len() - 2 implies #[trigger] e.todo[i] is Emit by {
                    assert(e.todo[i] == d.todo[i + 1]);
                }
            },
        }
    }
}

proof fn lemma_way(d: DispatcherView, script: Seq<(int, Reply)>)
    requires
        on_the_way(d),
    ensures
        on_the_way(safety::ran(d, script)),
    decreases script.len(),
{
    if script.len() > 0 {
        lemma_way(d, script.drop_last());
        lemma_way_step(safety::ran(d, script.drop_last()), script.last().0, script.last().1);
    }
}

/// The queue of a check that finds nothing to do.
spec fn at_rest(d: DispatcherView, c: CtxView) -> bool {
    &&& d.ctx == c
    &&& {
        ||| d.todo =~= seq![Task::Power(PowerTask::Begin)]
        ||| d.todo =~= seq![Task::Power(PowerTask::Apply), Task::Power(PowerTask::Edges)]
        ||| d.todo =~= seq![Task::Power(PowerTask::Edges)]
        ||| d.todo.len() == 0
    }
}

proof fn lemma_rest(d: DispatcherView, c: CtxView, script: Seq<(int, Reply)>)
    requires
        power_flow::policy_settled(c),
        at_rest(d, c),
    ensures
        at_rest(safety::ran(d, script), c),
    decreases script.len(),
{
    if script.len() > 0 {
        let at = safety::ran(d, script.drop_last());
        lemma_rest(d, c, script.drop_last());
        lemma_rest_step(at, c, script.last().0, script.last().1);
    }
}

proof fn lemma_rest_step(d: DispatcherView, c: CtxView, now: int, reply: Reply)
    requires
        power_flow::policy_settled(c),
        at_rest(d, c),
    ensures
        at_rest(dispatcher::stepped(d, now, reply).0, c),
        dispatcher::stepped(d, now, reply).1 is None,
{
    power_flow::settled_policy_rests(c, d.mode, now, reply);
    if d.todo.len() > 0 {
        let o = dispatcher::task_step(d.ctx, d.mode, d.todo[0], now, reply).1;
        assert(d.todo.len() == 1 ==> d.todo.skip(1) =~= seq![]);
        assert(d.todo.len() == 2 ==> d.todo.skip(1) =~= seq![Task::Power(PowerTask::Edges)]);
        assert(o.next + d.todo.skip(1) =~= (if o.next.len() == 0 {
            d.todo.skip(1)
        } else {
            o.next
        }));
    }
}

/// The echo of the daemon's own changes is a no-op: once a policy check has run to its
/// end, whatever the world answered, no step of a second one hands out an action, and none
/// changes the context.
pub proof fn second_checks_do_nothing(
    c: CtxView,
    m: Mode,
    first: Seq<(int, Reply)>,
    second: Seq<(int, Reply)>,
    i: int,
)
    requires
        safety::ran(checking(c, m), first).todo.len() == 0,
        0 <= i < second.len(),
    ensures
        ({
            let d = safety::ran(checking(c, m), first).ctx;
            &&& safety::handed_out(checking(d, m), second, i) is None
            &&& safety::ran(checking(d, m), second.take(i)).ctx == d
            &&& safety::ran(checking(d, m), second).ctx == d
        }),
{
    let end = safety::ran(checking(c, m), first);
    let again = checking(end.ctx, m);
    lemma_way(checking(c, m), first);
    assert(power_flow::policy_settled(end.ctx));
    lemma_rest(again, end.ctx, second.take(i));
    lemma_rest(again, end.ctx, second);
    lemma_rest_step(safety::ran(again, second.take(i)), end.ctx, second[i].0, second[i].1);
}

} // verus!
