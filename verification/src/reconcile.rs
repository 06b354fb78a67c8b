//! The reconciler: repairs the context where events were missed, lets the repairs
//! drive the machines, and asserts the panel and screen invariants.
use vstd::prelude::*;

use crate::ctx::{Context, CtxView, Inputs, PowerState};
use crate::effectors::Cmd;
use crate::event::ReconcileSnapshot;
use crate::fsm::{dpms_stuck_off, EventKind, State, StuckScreenInputs};
use crate::main_flow;
use crate::main_flow::{push_edp, Mode};
use crate::tasks::{
    as_command, ask, be_quiet, lead_to, no_tasks, push_task, Action, BatteryTask, Cause, MainTask,
    NoteKind, Outcome, OutcomeView, PowerTask, ProfileTask, ReconcileTask, Reply, Task, Todo,
    TodoView,
};
use crate::tasks;

verus! {

/// The inputs after a pass of the reconciler: each source that answered wins over
/// what was remembered. A lid is believed only where the machine has one; the request
/// file is read anew, so a snapshot from before a resume cannot bring one back.
pub open spec fn repaired_inputs(i: Inputs, snap: ReconcileSnapshot, request: bool) -> Inputs {
    Inputs {
        lid_closed: if i.lid_present {
            snap.lid_closed
        } else {
            i.lid_closed
        },
        suspend_requested: request,
        ext_mon_count: snap.ext_mon_count,
        logind_inhibitor: snap.logind_inhibitor,
        wayland_inhibitor: snap.wayland_inhibitor,
        locked: match snap.locked {
            Some(b) => b,
            None => i.locked,
        },
        on_ac: match snap.on_ac {
            Some(b) => b,
            None => i.on_ac,
        },
        ..i
    }
}

/// An input of power policy was repaired.
pub open spec fn power_drift(i: Inputs, j: Inputs) -> bool {
    i.ext_mon_count != j.ext_mon_count || i.on_ac != j.on_ac
}

/// An input of the main machine was repaired.
pub open spec fn fsm_drift(i: Inputs, j: Inputs) -> bool {
    ||| i.lid_closed != j.lid_closed
    ||| i.suspend_requested != j.suspend_requested
    ||| i.ext_mon_count != j.ext_mon_count
    ||| i.logind_inhibitor != j.logind_inhibitor
    ||| i.wayland_inhibitor != j.wayland_inhibitor
    ||| i.locked != j.locked
}

/// The context after a pass of the reconciler. Repaired power inputs count as settled
/// at once: there may be nothing that would ever settle them.
pub open spec fn repaired(c: CtxView, snap: ReconcileSnapshot, request: bool) -> CtxView {
    let inputs = repaired_inputs(c.inputs, snap, request);
    CtxView {
        inputs,
        power: if power_drift(c.inputs, inputs) {
            PowerState { on_ac_settled: inputs.on_ac, ..c.power }
        } else {
            c.power
        },
        ..c
    }
}

/// The tasks that repairs lead to.
pub open spec fn repair_tasks(i: Inputs, j: Inputs, snap: ReconcileSnapshot) -> Seq<TodoView> {
    (if i.ext_mon_count != j.ext_mon_count {
        seq![Task::Emit(Action::RestartProfileDebounce)]
    } else {
        seq![]
    }) + (if i.locked != j.locked {
        seq![Task::Emit(Action::MirrorLock(j.locked))]
    } else {
        seq![]
    }) + (if power_drift(i, j) {
        seq![
            Task::Power(PowerTask::Begin),
            Task::Battery(BatteryTask::Check { gate: None }),
        ]
    } else {
        seq![]
    }) + (if fsm_drift(i, j) {
        seq![Task::Main(MainTask::Evaluate(EventKind::CtxRepaired))]
    } else {
        seq![]
    }) + seq![Task::Reconcile(ReconcileTask::AfterRepair(snap))]
}

/// The tasks that make the panel what the profile and the state call for.
pub open spec fn panel_tasks(c: CtxView, m: Mode, disabled: Option<bool>) -> Seq<TodoView> {
    let should = c.profile.edp_policy.resolved(c.inputs.state == State::LidOpen);
    match disabled {
        Some(d) => if should == d {
            main_flow::edp_tasks(c, m, should)
        } else {
            seq![]
        },
        None => seq![],
    }
}

/// The cursor moved between two samples; a missing one proves nothing.
pub open spec fn cursor_moved(prev: Option<(i64, i64)>, now: Option<(i64, i64)>) -> bool {
    prev is Some && now is Some && prev->0 != now->0
}

/// The tasks that light screens which nobody means to be dark.
pub open spec fn screen_tasks(c: CtxView, m: Mode, snap: ReconcileSnapshot) -> Seq<TodoView> {
    match snap.dpms_off {
        Some(dpms_off) => if crate::fsm::stuck_off(
            c.inputs.state,
            StuckScreenInputs {
                dpms_off,
                locked: c.inputs.locked,
                cursor_moved: cursor_moved(c.inputs.last_cursor_pos, snap.cursor_pos),
            },
        ) {
            seq![Task::Emit(tasks::command(m.shadow, Cmd::DpmsOn))]
        } else {
            seq![]
        },
        None => seq![],
    }
}

/// What the tasks of a reconciler pass come to. A suspending machine is left alone
/// after its repair. A profile that was switched behind the daemon's back is taken in
/// before the panel is made to fit, or the two would fight.
pub open spec fn reconcile_step(c: CtxView, m: Mode, t: ReconcileTask, reply: Reply) -> (
    CtxView,
    OutcomeView,
) {
    match t {
        ReconcileTask::Begin(snap) => (
            c,
            tasks::asking(
                Action::ProbeSuspendRequest,
                Task::Reconcile(ReconcileTask::Probed(snap)),
            ),
        ),
        ReconcileTask::Probed(snap) => {
            let d = repaired(c, snap, reply.yes());
            (d, tasks::leading(repair_tasks(c.inputs, d.inputs, snap)))
        },
        ReconcileTask::AfterRepair(snap) => (
            c,
            if c.inputs.state == State::Suspending {
                tasks::quiet()
            } else {
                tasks::leading(
                    seq![
                        Task::Profile(ProfileTask::Ingest),
                        Task::Reconcile(ReconcileTask::Enforce(snap)),
                    ],
                )
            },
        ),
        ReconcileTask::Enforce(snap) => (
            CtxView { inputs: Inputs { last_cursor_pos: snap.cursor_pos, ..c.inputs }, ..c },
            tasks::leading(
                panel_tasks(c, m, snap.edp_disabled) + screen_tasks(c, m, snap) + seq![
                    Task::Note(NoteKind::Snapshot, Cause::ReconcileTick),
                ],
            ),
        ),
    }
}

/// The inputs after a pass of the reconciler.
fn repair(i: &Inputs, snap: &ReconcileSnapshot, request: bool) -> (r: Inputs)
    ensures
        r == repaired_inputs(*i, *snap, request),
{
    let mut j = *i;
    if i.lid_present {
        j.lid_closed = snap.lid_closed;
    }
    j.suspend_requested = request;
    j.ext_mon_count = snap.ext_mon_count;
    j.logind_inhibitor = snap.logind_inhibitor;
    j.wayland_inhibitor = snap.wayland_inhibitor;
    match snap.locked {
        Some(b) => {
            j.locked = b;
        },
        None => {},
    }
    match snap.on_ac {
        Some(b) => {
            j.on_ac = b;
        },
        None => {},
    }
    j
}

/// The tasks that repairs lead to.
fn follow_repairs(i: &Inputs, j: &Inputs, snap: ReconcileSnapshot) -> (r: Vec<Todo>)
    ensures
        tasks::todos(r@) == repair_tasks(*i, *j, snap),
{
    let mut next = no_tasks();
    if i.ext_mon_count != j.ext_mon_count {
        push_task(&mut next, Task::Emit(Action::RestartProfileDebounce));
    }
    if i.locked != j.locked {
        push_task(&mut next, Task::Emit(Action::MirrorLock(j.locked)));
    }
    if i.ext_mon_count != j.ext_mon_count || i.on_ac != j.on_ac {
        push_task(&mut next, Task::Power(PowerTask::Begin));
        push_task(&mut next, Task::Battery(BatteryTask::Check { gate: None }));
    }
    if i.lid_closed != j.lid_closed || i.suspend_requested != j.suspend_requested
        || i.ext_mon_count != j.ext_mon_count || i.logind_inhibitor != j.logind_inhibitor
        || i.wayland_inhibitor != j.wayland_inhibitor || i.locked != j.locked {
        push_task(&mut next, Task::Main(MainTask::Evaluate(EventKind::CtxRepaired)));
    }
    push_task(&mut next, Task::Reconcile(ReconcileTask::AfterRepair(snap)));
    assert(tasks::todos(next@) =~= repair_tasks(*i, *j, snap));
    next
}

/// Whether the cursor moved between two samples.
fn moved(prev: Option<(i64, i64)>, now: Option<(i64, i64)>) -> (r: bool)
    ensures
        r == cursor_moved(prev, now),
{
    match (prev, now) {
        (Some(a), Some(b)) => a.0 != b.0 || a.1 != b.1,
        _ => false,
    }
}

/// The tasks that make panel and screens fit the state.
fn enforce(ctx: &Context, m: Mode, snap: &ReconcileSnapshot) -> (r: Vec<Todo>)
    ensures
        tasks::todos(r@) == panel_tasks(ctx@, m, snap.edp_disabled) + screen_tasks(ctx@, m, *snap)
            + seq![Task::Note(NoteKind::Snapshot, Cause::ReconcileTick)],
{
    let mut next = no_tasks();
    let should = ctx.profile.edp_policy.resolve(ctx.inputs.state == State::LidOpen);
    match snap.edp_disabled {
        Some(disabled) => {
            if should == disabled {
                push_edp(&mut next, ctx, m, should);
            }
        },
        None => {},
    }
    assert(tasks::todos(next@) =~= panel_tasks(ctx@, m, snap.edp_disabled));
    match snap.dpms_off {
        Some(dpms_off) => {
            let inputs = StuckScreenInputs {
                dpms_off,
                locked: ctx.inputs.locked,
                cursor_moved: moved(ctx.inputs.last_cursor_pos, snap.cursor_pos),
            };
            if dpms_stuck_off(ctx.inputs.state, &inputs) {
                push_task(&mut next, Task::Emit(as_command(m.shadow, Cmd::DpmsOn)));
            }
        },
        None => {},
    }
    assert(tasks::todos(next@) =~= panel_tasks(ctx@, m, snap.edp_disabled) + screen_tasks(
        ctx@,
        m,
        *snap,
    ));
    push_task(&mut next, Task::Note(NoteKind::Snapshot, Cause::ReconcileTick));
    next
}

/// Takes one task of a reconciler pass.
pub fn handle_reconcile_tick(ctx: &mut Context, m: Mode, t: ReconcileTask, reply: &Reply) -> (r:
    Outcome)
    ensures
        (final(ctx)@, r@) == reconcile_step(old(ctx)@, m, t, *reply),
{
    match t {
        ReconcileTask::Begin(snap) => ask(
            Action::ProbeSuspendRequest,
            Task::Reconcile(ReconcileTask::Probed(snap)),
        ),
        ReconcileTask::Probed(snap) => {
            let before = ctx.inputs;
            let after = repair(&before, &snap, reply.is_yes());
            ctx.inputs = after;
            if before.ext_mon_count != after.ext_mon_count || before.on_ac != after.on_ac {
                ctx.power.on_ac_settled = after.on_ac;
            }
            lead_to(follow_repairs(&before, &after, snap))
        },
        ReconcileTask::AfterRepair(snap) => {
            if ctx.inputs.state == State::Suspending {
                be_quiet()
            } else {
                let mut next = no_tasks();
                push_task(&mut next, Task::Profile(ProfileTask::Ingest));
                push_task(&mut next, Task::Reconcile(ReconcileTask::Enforce(snap)));
                let r = lead_to(next);
                assert(r@.next =~= seq![
                    Task::Profile(ProfileTask::Ingest),
                    Task::Reconcile(ReconcileTask::Enforce(snap)),
                ]);
                r
            }
        },
        ReconcileTask::Enforce(snap) => {
            let next = enforce(ctx, m, &snap);
            ctx.inputs.last_cursor_pos = snap.cursor_pos;
            lead_to(next)
        },
    }
}

// ---------------------------------------------------------------------- laws

/// After its repair the context agrees with every source that answered.
pub proof fn repair_agrees_with_the_world(c: CtxView, snap: ReconcileSnapshot, request: bool)
    ensures
        ({
            let d = repaired(c, snap, request);
            &&& c.inputs.lid_present ==> d.inputs.lid_closed == snap.lid_closed
            &&& d.inputs.suspend_requested == request
            &&& d.inputs.ext_mon_count == snap.ext_mon_count
            &&& d.inputs.logind_inhibitor == snap.logind_inhibitor
            &&& d.inputs.wayland_inhibitor == snap.wayland_inhibitor
            &&& snap.locked matches Some(b) ==> d.inputs.locked == b
            &&& snap.on_ac matches Some(b) ==> d.inputs.on_ac == b
            &&& d.inputs.state == c.inputs.state
        }),
{
}

/// A second pass over an unchanged world repairs nothing and drives nothing.
pub proof fn second_pass_repairs_nothing(c: CtxView, snap: ReconcileSnapshot, request: bool)
    ensures
        ({
            let d = repaired(c, snap, request);
            &&& repaired(d, snap, request) == d
            &&& repair_tasks(d.inputs, d.inputs, snap) == seq![
                Task::<Seq<char>, Seq<Seq<char>>, crate::toml_profile::TomlView>::Reconcile(
                    ReconcileTask::AfterRepair(snap),
                ),
            ]
        }),
{
    let d = repaired(c, snap, request);
    assert(repaired_inputs(d.inputs, snap, request) == d.inputs);
    assert(repair_tasks(d.inputs, d.inputs, snap) =~= seq![
        Task::<Seq<char>, Seq<Seq<char>>, crate::toml_profile::TomlView>::Reconcile(
            ReconcileTask::AfterRepair(snap),
        ),
    ]);
}

/// A machine that is declared lidless never takes a lid report in.
pub proof fn lidless_machine_ignores_the_lid(c: CtxView, snap: ReconcileSnapshot, request: bool)
    requires
        !c.inputs.lid_present,
    ensures
        repaired(c, snap, request).inputs.lid_closed == c.inputs.lid_closed,
{
}

/// The screens are lit only in a state that shows something, and a locked session
/// only when the cursor moved.
pub proof fn screens_are_lit_only_when_unowned(c: CtxView, m: Mode, snap: ReconcileSnapshot)
    requires
        screen_tasks(c, m, snap).len() > 0,
    ensures
        c.inputs.state == State::LidOpen || c.inputs.state == State::Docked,
        snap.dpms_off == Some(true),
        c.inputs.locked ==> cursor_moved(c.inputs.last_cursor_pos, snap.cursor_pos),
{
}

} // verus!
