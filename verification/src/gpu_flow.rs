//! GPU advice at work: the profile's preference, the session's device list, the
//! selection that would be made now, and the runtime-PM pin that follows the mode.
use vstd::prelude::*;

use crate::ctx::{Context, CtxView, GpuView};
use crate::effectors::{Cmd, Topic};
use crate::event::label_of;
use crate::gpu::{dgpu_runtime_pm_pinned, gpu_desired, resolve_gpu_mode, GpuMode, GpuModeSource};
use crate::gpu_drift;
use crate::main_flow::Mode;
use crate::power_flow;
use crate::toml_profile;
use crate::profiles::GpuPref;
use crate::tasks::{
    as_command, ask, be_quiet, lead_to, lead_to_one, no_tasks, push_task, Action, Cause,
    GpuTask, GpuTodo, GpuTodoView, Outcome, OutcomeView, Reply, Task, TodoView,
};
use crate::tasks;
use crate::text;

verus! {

/// The context with another GPU session.
pub open spec fn with_gpu(c: CtxView, gpu: GpuView) -> CtxView {
    CtxView { gpu, ..c }
}

/// What a piece of advice names as its trigger.
pub open spec fn trigger_text(cause: Cause) -> Seq<char> {
    match cause {
        Cause::Event(k) => crate::event::kind_label(k),
        Cause::MonitorsChanged => "monitors changed"@,
        Cause::ReconcileTick => "reconcile"@,
        Cause::Startup => "startup"@,
    }
}

/// What a piece of advice names as its trigger.
pub fn trigger_of(cause: Cause) -> (r: &'static str)
    ensures
        r@ == trigger_text(cause),
{
    match cause {
        Cause::Event(k) => label_of(k),
        Cause::MonitorsChanged => "monitors changed",
        Cause::ReconcileTick => "reconcile",
        Cause::Startup => "startup",
    }
}

/// The preference of the profile that the monitors call for; none calls for `auto`.
pub open spec fn preference(signature: Seq<Seq<char>>, reply: Reply) -> GpuPref {
    match toml_profile::selected(signature, reply.profiles_told()) {
        Some(p) => p.inner.gpu,
        None => GpuPref::Auto,
    }
}

/// The preference of the profile that the monitors call for.
fn fresh_preference(signature: &Vec<String>, reply: &Reply) -> (r: GpuPref)
    ensures
        r == preference(text::strings(signature@), *reply),
{
    let picked = match reply.profiles() {
        Some(list) => toml_profile::select_profile(signature, list),
        None => None,
    };
    match picked {
        Some(p) => p.inner.gpu,
        None => GpuPref::Auto,
    }
}

/// The mode that a reply and a preference resolve to, and where it comes from.
pub open spec fn session_mode(reply: Reply, pref: GpuPref) -> (GpuMode, GpuModeSource) {
    crate::gpu::mode_of(reply.gpu_told().0, gpu_drift::overlay_of(pref), reply.gpu_told().1)
}

/// The selection that would be made now.
pub open spec fn session_selection(reply: Reply, pref: GpuPref) -> (
    Option<Seq<Seq<char>>>,
    Seq<char>,
) {
    let (mode, source) = session_mode(reply, pref);
    crate::gpu::selection_of(
        reply.gpu_told().2,
        reply.gpu_told().3,
        reply.gpu_told().4,
        mode,
        source,
    )
}

/// Resolves the mode from a reply and a preference.
pub fn resolve_session_gpu_mode(reply: &Reply, pref: GpuPref) -> (r: (GpuMode, GpuModeSource))
    ensures
        r == session_mode(*reply, pref),
{
    let (mode, source, _warnings) = match reply.gpu() {
        Some(g) => resolve_gpu_mode(
            text::opt_as_str(&g.override_word),
            gpu_drift::overlay_word(pref),
            text::opt_as_str(&g.platform_word),
        ),
        None => resolve_gpu_mode(None, gpu_drift::overlay_word(pref), None),
    };
    (mode, source)
}

/// The tasks of a drift check: the advice, where there is any, and the pin.
pub open spec fn advice_tasks(
    m: Mode,
    advise: bool,
    selection: (Option<Seq<Seq<char>>>, Seq<char>),
    cause: Cause,
    on_ac: bool,
    mode: GpuMode,
) -> Seq<TodoView> {
    (if advise && selection.0 is Some {
        seq![
            Task::Emit(
                tasks::command(
                    m.shadow,
                    Cmd::Notify {
                        topic: Topic::Gpu,
                        body: gpu_drift::advice_text(
                            selection.0->0,
                            selection.1,
                            trigger_text(cause),
                            on_ac,
                        ),
                    },
                ),
            ),
        ]
    } else {
        seq![]
    }) + seq![Task::Gpu(GpuTask::Pin(mode == GpuMode::Dgpu))]
}

/// What a drift check on given inputs comes to.
pub open spec fn advised(c: CtxView, m: Mode, cause: Cause, pref: GpuPref, now: int, reply: Reply) -> (
    CtxView,
    OutcomeView,
) {
    let selection = session_selection(reply, pref);
    let (gpu, advise) = gpu_drift::drift_checked(c.gpu, selection.0, now);
    (
        with_gpu(c, gpu),
        tasks::leading(
            advice_tasks(
                m,
                advise,
                selection,
                cause,
                c.inputs.on_ac,
                session_mode(reply, pref).0,
            ),
        ),
    )
}

/// The selection for the inputs of a reply.
fn select_now(reply: &Reply, pref: GpuPref) -> (r: (Option<Vec<String>>, String))
    ensures
        crate::gpu::selection_view(r) == session_selection(*reply, pref),
{
    let (mode, source) = resolve_session_gpu_mode(reply, pref);
    match reply.gpu() {
        Some(g) => gpu_desired(&g.snapshot, mode, source),
        None => {
            let empty = crate::gpu::GpuSnapshot::default();
            assert(crate::gpu::card_views(empty.cards@) =~= Seq::<crate::gpu::CardView>::empty());
            gpu_desired(&empty, mode, source)
        },
    }
}

/// Compares the session with the selection that would be made now.
fn advise_on(ctx: &mut Context, m: Mode, cause: Cause, pref: GpuPref, now: u64, reply: &Reply) -> (r:
    Outcome)
    ensures
        (final(ctx)@, r@) == advised(old(ctx)@, m, cause, pref, now as int, *reply),
{
    let (mode, _source) = resolve_session_gpu_mode(reply, pref);
    let (desired, reason) = select_now(reply, pref);
    let advise = gpu_drift::gpu_drift_check(&mut ctx.gpu, &desired, now);
    let mut next = no_tasks();
    if advise {
        match &desired {
            Some(list) => {
                let body = gpu_drift::advice_message(
                    list,
                    reason.as_str(),
                    trigger_of(cause),
                    ctx.inputs.on_ac,
                );
                push_task(
                    &mut next,
                    Task::Emit(as_command(m.shadow, Cmd::Notify { topic: Topic::Gpu, body })),
                );
            },
            None => {},
        }
    }
    push_task(&mut next, Task::Gpu(GpuTask::Pin(dgpu_runtime_pm_pinned(mode))));
    assert(tasks::todos(next@) =~= advice_tasks(
        m,
        advise,
        session_selection(*reply, pref),
        cause,
        ctx.inputs.on_ac,
        mode,
    ));
    lead_to(next)
}

/// What the tasks around the GPU selection come to. The pin is pushed once, and only
/// to a power service that is there. At startup nothing is advised: the pin alone
/// has to be in place before the first display comes up.
pub open spec fn gpu_step(c: CtxView, m: Mode, t: GpuTodoView, now: int, reply: Reply) -> (
    CtxView,
    OutcomeView,
) {
    match t {
        GpuTask::Gate(cause) => (
            c,
            tasks::asking(Action::ReadSignature, Task::Gpu(GpuTask::GateListed(cause))),
        ),
        GpuTask::GateListed(cause) => (
            c,
            tasks::asking(
                Action::LoadProfiles,
                Task::Gpu(GpuTask::GateLoaded(cause, reply.listed())),
            ),
        ),
        GpuTask::GateLoaded(cause, signature) => {
            let pref = preference(signature, reply);
            (
                c,
                if cause == Cause::Startup {
                    tasks::asking(Action::ReadGpuInputs, Task::Gpu(GpuTask::PinRead(pref)))
                } else {
                    tasks::leading(seq![Task::Gpu(GpuTask::Advise(cause, pref))])
                },
            )
        },
        GpuTask::Advise(cause, pref) => (
            c,
            if c.gpu.pending {
                tasks::asking(
                    Action::ReadSessionDevices,
                    Task::Gpu(GpuTask::AdviseSession(cause, pref)),
                )
            } else {
                tasks::leading(seq![Task::Gpu(GpuTask::AdviseInputs(cause, pref))])
            },
        ),
        GpuTask::AdviseSession(cause, pref) => {
            let told = reply.devices_told();
            (
                with_gpu(c, gpu_drift::session_seen(c.gpu, told)),
                if told matches Some(d) && d.len() == 0 {
                    tasks::asking(
                        Action::ReadSelectReason,
                        Task::Gpu(GpuTask::AdviseReason(cause, pref)),
                    )
                } else {
                    tasks::leading(seq![Task::Gpu(GpuTask::AdviseInputs(cause, pref))])
                },
            )
        },
        GpuTask::AdviseReason(cause, pref) => (
            with_gpu(c, gpu_drift::reason_seen(c.gpu, reply.said())),
            tasks::leading(seq![Task::Gpu(GpuTask::AdviseInputs(cause, pref))]),
        ),
        GpuTask::AdviseInputs(cause, pref) => (
            c,
            tasks::asking(Action::ReadGpuInputs, Task::Gpu(GpuTask::AdviseRead(cause, pref))),
        ),
        GpuTask::AdviseRead(cause, pref) => advised(c, m, cause, pref, now, reply),
        GpuTask::PinRead(pref) => (
            c,
            tasks::leading(
                seq![Task::Gpu(GpuTask::Pin(session_mode(reply, pref).0 == GpuMode::Dgpu))],
            ),
        ),
        GpuTask::Pin(awake) => if c.gpu.pinned == Some(awake) || !c.power.powerd_available {
            (c, tasks::quiet())
        } else if m.shadow {
            (with_gpu(c, GpuView { pinned: Some(awake), ..c.gpu }), tasks::quiet())
        } else {
            (c, tasks::asking(Action::SetDgpuAwake(awake), Task::Gpu(GpuTask::PinSet(awake))))
        },
        GpuTask::PinSet(awake) => (
            if reply.yes() {
                with_gpu(c, GpuView { pinned: Some(awake), ..c.gpu })
            } else {
                power_flow::with_power(c, power_flow::service_gone(c.power))
            },
            tasks::quiet(),
        ),
    }
}

fn advise_session(ctx: &mut Context, cause: Cause, pref: GpuPref, reply: &Reply) -> (r: Outcome)
    ensures
        forall|m: Mode, now: int|
            (final(ctx)@, r@) == #[trigger] gpu_step(
                old(ctx)@,
                m,
                GpuTask::AdviseSession(cause, pref),
                now,
                *reply,
            ),
{
    let told = reply.devices();
    if gpu_drift::see_session(&mut ctx.gpu, told) {
        ask(Action::ReadSelectReason, Task::Gpu(GpuTask::AdviseReason(cause, pref)))
    } else {
        lead_to_one(Task::Gpu(GpuTask::AdviseInputs(cause, pref)))
    }
}

fn sync_dgpu_pin(ctx: &mut Context, m: Mode, awake: bool) -> (r: Outcome)
    ensures
        forall|now: int, reply: Reply|
            (final(ctx)@, r@) == #[trigger] gpu_step(
                old(ctx)@,
                m,
                GpuTask::Pin(awake),
                now,
                reply,
            ),
{
    let done = match ctx.gpu.pinned {
        Some(p) => p == awake,
        None => false,
    };
    if done || !ctx.power.powerd_available {
        return be_quiet();
    }
    if m.shadow {
        ctx.gpu.pinned = Some(awake);
        be_quiet()
    } else {
        ask(Action::SetDgpuAwake(awake), Task::Gpu(GpuTask::PinSet(awake)))
    }
}

/// Takes one task around the GPU selection.
pub fn run_gpu(ctx: &mut Context, m: Mode, t: GpuTodo, now: u64, reply: &Reply) -> (r: Outcome)
    ensures
        (final(ctx)@, r@) == gpu_step(old(ctx)@, m, t@, now as int, *reply),
{
    match t {
        GpuTask::Gate(cause) => ask(
            Action::ReadSignature,
            Task::Gpu(GpuTask::GateListed(cause)),
        ),
        GpuTask::GateListed(cause) => {
            let names = reply.names();
            ask(Action::LoadProfiles, Task::Gpu(GpuTask::GateLoaded(cause, names)))
        },
        GpuTask::GateLoaded(cause, signature) => {
            let pref = fresh_preference(&signature, reply);
            if cause == Cause::Startup {
                ask(Action::ReadGpuInputs, Task::Gpu(GpuTask::PinRead(pref)))
            } else {
                lead_to_one(Task::Gpu(GpuTask::Advise(cause, pref)))
            }
        },
        GpuTask::Advise(cause, pref) => {
            if ctx.gpu.pending {
                ask(Action::ReadSessionDevices, Task::Gpu(GpuTask::AdviseSession(cause, pref)))
            } else {
                lead_to_one(Task::Gpu(GpuTask::AdviseInputs(cause, pref)))
            }
        },
        GpuTask::AdviseSession(cause, pref) => advise_session(ctx, cause, pref, reply),
        GpuTask::AdviseReason(cause, pref) => {
            let reason = reply.text();
            gpu_drift::see_reason(&mut ctx.gpu, text::opt_as_str(&reason));
            lead_to_one(Task::Gpu(GpuTask::AdviseInputs(cause, pref)))
        },
        GpuTask::AdviseInputs(cause, pref) => ask(
            Action::ReadGpuInputs,
            Task::Gpu(GpuTask::AdviseRead(cause, pref)),
        ),
        GpuTask::AdviseRead(cause, pref) => advise_on(ctx, m, cause, pref, now, reply),
        GpuTask::PinRead(pref) => {
            let (mode, _source) = resolve_session_gpu_mode(reply, pref);
            lead_to_one(Task::Gpu(GpuTask::Pin(dgpu_runtime_pm_pinned(mode))))
        },
        GpuTask::Pin(awake) => sync_dgpu_pin(ctx, m, awake),
        GpuTask::PinSet(awake) => {
            if reply.is_yes() {
                ctx.gpu.pinned = Some(awake);
            } else {
                ctx.power.powerd_available = false;
                ctx.power.powerd_warned = true;
            }
            be_quiet()
        },
    }
}

// ---------------------------------------------------------------------- laws

/// The pin that the power service has taken is not pushed again.
pub proof fn pin_is_pushed_once(c: CtxView, m: Mode, awake: bool, now: int, reply: Reply)
    requires
        c.gpu.pinned == Some(awake),
    ensures
        gpu_step(c, m, GpuTask::Pin(awake), now, reply) == (c, tasks::quiet()),
{
}

} // verus!
