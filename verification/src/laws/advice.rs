//! What the session's graphics are held against, when advice is given, and when the
//! discrete card is kept awake.
use vstd::prelude::*;

use crate::ctx::CtxView;
use crate::effectors::{Cmd, Topic};
use crate::gpu;
use crate::gpu::{GpuMode, GpuModeSource};
use crate::gpu_flow;
use crate::laws::layouts;
use crate::laws::selection;
use crate::main_flow::Mode;
use crate::profiles;
use crate::profiles::GpuPref;
use crate::tasks::{Action, Cause, GpuTask, Reply, TodoView};
use crate::text;
use crate::toml_profile;

verus! {

// ---------------------------------------------------------------------- the question

/// What is looked up before anything is advised on: the monitors, the profiles, and, unless
/// the preference is all that startup needs for its pin, the session.
pub proof fn advice_is_looked_into(c: CtxView, m: Mode, cause: Cause, now: int, reply: Reply)
    ensures
        ({
            let (e, o) = gpu_flow::gpu_step(c, m, GpuTask::Gate(cause), now, reply);
            &&& e == c && !o.stop
            &&& o.act == Some(Action::<Seq<char>>::ReadSignature)
            &&& o.next == seq![TodoView::Gpu(GpuTask::GateListed(cause))]
        }),
        ({
            let (e, o) = gpu_flow::gpu_step(c, m, GpuTask::GateListed(cause), now, reply);
            &&& e == c && !o.stop
            &&& o.act == Some(Action::<Seq<char>>::LoadProfiles)
            &&& o.next == seq![TodoView::Gpu(GpuTask::GateLoaded(cause, reply.listed()))]
        }),
{
    assert(gpu_flow::gpu_step(c, m, GpuTask::Gate(cause), now, reply).1.next =~= seq![
        TodoView::Gpu(GpuTask::GateListed(cause)),
    ]);
    assert(gpu_flow::gpu_step(c, m, GpuTask::GateListed(cause), now, reply).1.next =~= seq![
        TodoView::Gpu(GpuTask::GateLoaded(cause, reply.listed())),
    ]);
}

/// The preference is that of a profile that fits the monitors, and no profile that fits has
/// a higher priority; where none fits there is no preference. Startup goes on to its pin;
/// everything else to the advice.
pub proof fn the_fitting_profile_has_the_say(
    c: CtxView,
    m: Mode,
    cause: Cause,
    signature: Seq<Seq<char>>,
    now: int,
    reply: Reply,
    k: int,
)
    requires
        0 <= k < reply.profiles_told().len(),
        profiles::eligible(reply.profiles_told()[k].inner, signature),
        forall|i: int, j: int|
            0 <= i < j < reply.profiles_told().len() ==> (#[trigger] reply.profiles_told()[i]).inner.name
                != (#[trigger] reply.profiles_told()[j]).inner.name,
    ensures
        ({
            let (e, o) = gpu_flow::gpu_step(
                c,
                m,
                GpuTask::GateLoaded(cause, signature),
                now,
                reply,
            );
            let list = reply.profiles_told();
            &&& e == c && !o.stop
            &&& exists|i: int|
                {
                    &&& 0 <= i < list.len()
                    &&& profiles::eligible((#[trigger] list[i]).inner, signature)
                    &&& list[i].inner.priority >= list[k].inner.priority
                    &&& cause == Cause::Startup ==> o.act == Some(
                        Action::<Seq<char>>::ReadGpuInputs,
                    ) && o.next == seq![TodoView::Gpu(GpuTask::PinRead(list[i].inner.gpu))]
                    &&& cause != Cause::Startup ==> o.act is None && o.next == seq![
                        TodoView::Gpu(GpuTask::Advise(cause, list[i].inner.gpu)),
                    ]
                }
        }),
{
    let list = reply.profiles_told();
    let all = toml_profile::inners(list);
    toml_profile::selection_keeps_its_layout(signature, list);
    assert(all[k] == list[k].inner);
    layouts::the_highest_priority_is_chosen(signature, all, k);
    let p = toml_profile::selected(signature, list)->0;
    let i = list.index_of(p);
    assert(list[i] == p);
    let o = gpu_flow::gpu_step(c, m, GpuTask::GateLoaded(cause, signature), now, reply).1;
    if cause == Cause::Startup {
        assert(o.next =~= seq![TodoView::Gpu(GpuTask::PinRead(list[i].inner.gpu))]);
    } else {
        assert(o.next =~= seq![TodoView::Gpu(GpuTask::Advise(cause, list[i].inner.gpu))]);
    }
}

/// Where no profile fits the monitors, there is no preference.
pub proof fn without_a_profile_nothing_is_preferred(
    c: CtxView,
    m: Mode,
    cause: Cause,
    signature: Seq<Seq<char>>,
    now: int,
    reply: Reply,
)
    requires
        forall|i: int|
            0 <= i < reply.profiles_told().len() ==> !profiles::eligible(
                (#[trigger] reply.profiles_told()[i]).inner,
                signature,
            ),
    ensures
        ({
            let (e, o) = gpu_flow::gpu_step(
                c,
                m,
                GpuTask::GateLoaded(cause, signature),
                now,
                reply,
            );
            &&& e == c && !o.stop
            &&& cause == Cause::Startup ==> o.act == Some(Action::<Seq<char>>::ReadGpuInputs)
                && o.next == seq![TodoView::Gpu(GpuTask::PinRead(GpuPref::Auto))]
            &&& cause != Cause::Startup ==> o.act is None && o.next == seq![
                TodoView::Gpu(GpuTask::Advise(cause, GpuPref::Auto)),
            ]
        }),
{
    let list = reply.profiles_told();
    let all = toml_profile::inners(list);
    assert forall|i: int| !profiles::is_selected(signature, all, i) by {
        if profiles::is_selected(signature, all, i) {
            assert(all[i] == list[i].inner);
        }
    }
    let o = gpu_flow::gpu_step(c, m, GpuTask::GateLoaded(cause, signature), now, reply).1;
    if cause == Cause::Startup {
        assert(o.next =~= seq![TodoView::Gpu(GpuTask::PinRead(GpuPref::Auto))]);
    } else {
        assert(o.next =~= seq![TodoView::Gpu(GpuTask::Advise(cause, GpuPref::Auto))]);
    }
}

// ----------------------------------------------------------------------- the session

/// The session's devices are looked up as long as they are not known. A list that is
/// found is what the session renders with. An empty one leads to the reason of the last
/// selection; none at all leaves the question open. Then the inputs are read.
pub proof fn the_session_is_looked_up(
    c: CtxView,
    m: Mode,
    cause: Cause,
    pref: GpuPref,
    now: int,
    reply: Reply,
)
    ensures
        ({
            let (e, o) = gpu_flow::gpu_step(c, m, GpuTask::Advise(cause, pref), now, reply);
            &&& e == c && !o.stop
            &&& c.gpu.pending ==> o.act == Some(Action::<Seq<char>>::ReadSessionDevices) && o.next
                == seq![TodoView::Gpu(GpuTask::AdviseSession(cause, pref))]
            &&& !c.gpu.pending ==> o.act is None && o.next == seq![
                TodoView::Gpu(GpuTask::AdviseInputs(cause, pref)),
            ]
        }),
        ({
            let (e, o) = gpu_flow::gpu_step(c, m, GpuTask::AdviseSession(cause, pref), now, reply);
            let told = reply.devices_told();
            &&& !o.stop
            &&& told is None ==> e.gpu.pending == c.gpu.pending && e.gpu.actual == c.gpu.actual
            &&& told is Some ==> !e.gpu.pending
            &&& told is Some && told->0.len() > 0 ==> e.gpu.actual == told
            &&& told is Some && told->0.len() == 0 ==> o.act == Some(
                Action::<Seq<char>>::ReadSelectReason,
            ) && o.next == seq![TodoView::Gpu(GpuTask::AdviseReason(cause, pref))]
            &&& told is None || told->0.len() > 0 ==> o.act is None && o.next == seq![
                TodoView::Gpu(GpuTask::AdviseInputs(cause, pref)),
            ]
            &&& e.gpu.pinned == c.gpu.pinned && e.gpu.last_notified == c.gpu.last_notified
        }),
        ({
            let (e, o) = gpu_flow::gpu_step(c, m, GpuTask::AdviseInputs(cause, pref), now, reply);
            &&& e == c && !o.stop
            &&& o.act == Some(Action::<Seq<char>>::ReadGpuInputs)
            &&& o.next == seq![TodoView::Gpu(GpuTask::AdviseRead(cause, pref))]
        }),
{
    let advise = gpu_flow::gpu_step(c, m, GpuTask::Advise(cause, pref), now, reply).1;
    if c.gpu.pending {
        assert(advise.next =~= seq![TodoView::Gpu(GpuTask::AdviseSession(cause, pref))]);
    } else {
        assert(advise.next =~= seq![TodoView::Gpu(GpuTask::AdviseInputs(cause, pref))]);
    }
    let seen = gpu_flow::gpu_step(c, m, GpuTask::AdviseSession(cause, pref), now, reply).1;
    if seen.act is Some {
        assert(seen.next =~= seq![TodoView::Gpu(GpuTask::AdviseReason(cause, pref))]);
    } else {
        assert(seen.next =~= seq![TodoView::Gpu(GpuTask::AdviseInputs(cause, pref))]);
    }
    assert(gpu_flow::gpu_step(c, m, GpuTask::AdviseInputs(cause, pref), now, reply).1.next
        =~= seq![TodoView::Gpu(GpuTask::AdviseRead(cause, pref))]);
}

/// A session without a list of its own is still held against a selection where the last
/// one stepped aside for a passing reason or gave nothing usable; for any other reason,
/// or none, it is nobody's business.
pub proof fn passing_reasons_keep_the_question_open(
    c: CtxView,
    m: Mode,
    cause: Cause,
    pref: GpuPref,
    now: int,
    reply: Reply,
)
    ensures
        ({
            let (e, o) = gpu_flow::gpu_step(c, m, GpuTask::AdviseReason(cause, pref), now, reply);
            let passing = reply.said() == Some("bailed-transient"@) || reply.said() == Some(
                "validation-failed"@,
            );
            &&& passing ==> e.gpu.actual is Some && e.gpu.actual->0.len() == 0
            &&& !passing ==> e.gpu.actual is None
            &&& e.gpu.pending == c.gpu.pending && e.gpu.pinned == c.gpu.pinned
            &&& o.act is None && !o.stop
            &&& o.next == seq![TodoView::Gpu(GpuTask::AdviseInputs(cause, pref))]
        }),
{
    assert(gpu_flow::gpu_step(c, m, GpuTask::AdviseReason(cause, pref), now, reply).1.next
        =~= seq![TodoView::Gpu(GpuTask::AdviseInputs(cause, pref))]);
}

// ------------------------------------------------------------------------ the advice

/// The preference of a profile counts like its word; one that has none counts for
/// nothing.
pub proof fn preferences_count_as_their_words(reply: Reply, pref: GpuPref)
    ensures
        ({
            let (mode, source) = gpu_flow::session_mode(reply, pref);
            let over = reply.gpu_told().0;
            let platform = reply.gpu_told().1;
            let pinned = over == Some("igpu"@) || over == Some("dgpu"@) || over == Some("off"@);
            &&& over == Some("igpu"@) ==> mode == GpuMode::Igpu
            &&& over == Some("dgpu"@) ==> mode == GpuMode::Dgpu
            &&& over == Some("off"@) ==> mode == GpuMode::Off
            &&& pinned ==> source == GpuModeSource::Override
            &&& !pinned && pref == GpuPref::Igpu ==> mode == GpuMode::Igpu && source
                == GpuModeSource::Profile
            &&& !pinned && pref == GpuPref::Dgpu ==> mode == GpuMode::Dgpu && source
                == GpuModeSource::Profile
            &&& !pinned && pref == GpuPref::Auto ==> source != GpuModeSource::Profile
            &&& !pinned && pref == GpuPref::Auto && (platform == Some("low-power"@) || platform
                == Some("quiet"@)) ==> mode == GpuMode::Igpu
            &&& !pinned && pref == GpuPref::Auto && platform == Some("performance"@) ==> mode
                == GpuMode::Dgpu
            &&& !pinned && pref == GpuPref::Auto && platform is None ==> mode == GpuMode::Auto
        }),
{
    let (over, platform) = (reply.gpu_told().0, reply.gpu_told().1);
    let overlay = match pref {
        GpuPref::Auto => None,
        GpuPref::Igpu => Some("igpu"@),
        GpuPref::Dgpu => Some("dgpu"@),
    };
    assert(crate::gpu_drift::overlay_of(pref) == overlay);
    selection::the_first_that_names_a_mode_decides(over, overlay, platform);
}

/// The advice of one check is due: the session is known and managed, a selection would now
/// give another list, it is not what was last advised, and the last advice is a minute
/// old.
pub open spec fn is_due(c: CtxView, want: Option<Seq<Seq<char>>>, now: int) -> bool {
    &&& !c.gpu.pending
    &&& c.gpu.actual is Some
    &&& want is Some
    &&& want != c.gpu.actual
    &&& c.gpu.last_notified != Some(text::joined(want->0, ":"@))
    &&& c.gpu.last_notify_at is Some ==> now - c.gpu.last_notify_at->0 >= 60_000_000_000
}

/// Advice is given where it is due, and remembered; a session that agrees with what a
/// selection would give forgets what was last advised; nothing else changes. The pin
/// follows in any case: the card is kept awake in the discrete mode alone.
pub proof fn advice_is_given_where_it_is_due(
    c: CtxView,
    m: Mode,
    cause: Cause,
    pref: GpuPref,
    now: int,
    reply: Reply,
)
    ensures
        ({
            let (e, o) = gpu_flow::gpu_step(c, m, GpuTask::AdviseRead(cause, pref), now, reply);
            let (mode, source) = gpu_flow::session_mode(reply, pref);
            let told = reply.gpu_told();
            let (want, reason) = gpu::selection_of(told.2, told.3, told.4, mode, source);
            let pin = TodoView::Gpu(GpuTask::Pin(mode == GpuMode::Dgpu));
            let words = gpu_flow::trigger_text(cause) + ": a relog would switch rendering to "@
                + (if want->0.len() == 0 {
                seq![]
            } else {
                text::after_last(want->0[0], '/')
            }) + " ("@ + reason + ")"@ + (if c.inputs.on_ac {
                seq![]
            } else {
                " — on battery"@
            });
            let note = Cmd::Notify { topic: Topic::Gpu, body: words };
            &&& o.act is None && !o.stop
            &&& !is_due(c, want, now) ==> o.next == seq![pin]
            &&& is_due(c, want, now) && !m.shadow ==> o.next == seq![
                TodoView::Emit(Action::Run(note)),
                pin,
            ]
            &&& is_due(c, want, now) && m.shadow ==> o.next == seq![
                TodoView::Emit(Action::Shadowed(note)),
                pin,
            ]
            &&& is_due(c, want, now) ==> e.gpu.last_notified == Some(text::joined(want->0, ":"@))
                && e.gpu.last_notify_at == Some(now)
            &&& !c.gpu.pending && c.gpu.actual is Some && want == c.gpu.actual
                ==> e.gpu.last_notified is None
            &&& !is_due(c, want, now) ==> e.gpu.last_notify_at == c.gpu.last_notify_at
            &&& !is_due(c, want, now) && (c.gpu.actual is None || want != c.gpu.actual)
                ==> e.gpu.last_notified == c.gpu.last_notified
            &&& e.gpu.actual == c.gpu.actual && e.gpu.pending == c.gpu.pending && e.gpu.pinned
                == c.gpu.pinned
            &&& e.inputs == c.inputs && e.power == c.power && e.profile == c.profile
        }),
{
    let o = gpu_flow::gpu_step(c, m, GpuTask::AdviseRead(cause, pref), now, reply).1;
    let (mode, source) = gpu_flow::session_mode(reply, pref);
    let told = reply.gpu_told();
    let (want, reason) = gpu::selection_of(told.2, told.3, told.4, mode, source);
    let pin = TodoView::Gpu(GpuTask::Pin(mode == GpuMode::Dgpu));
    if is_due(c, want, now) {
        assert(o.next =~= seq![o.next[0], pin]);
    } else {
        assert(o.next =~= seq![pin]);
    }
}

/// Advice names what brought it up.
pub proof fn advice_names_its_cause()
    ensures
        gpu_flow::trigger_text(Cause::MonitorsChanged) == "monitors changed"@,
        gpu_flow::trigger_text(Cause::ReconcileTick) == "reconcile"@,
        gpu_flow::trigger_text(Cause::Startup) == "startup"@,
        forall|k: crate::fsm::EventKind|
            #[trigger] gpu_flow::trigger_text(Cause::Event(k)) == crate::event::kind_label(k),
{
}

// --------------------------------------------------------------------------- the pin

/// At startup the card is kept awake in the discrete mode alone.
pub proof fn startup_pins_for_the_discrete_mode(
    c: CtxView,
    m: Mode,
    pref: GpuPref,
    now: int,
    reply: Reply,
)
    ensures
        ({
            let (e, o) = gpu_flow::gpu_step(c, m, GpuTask::PinRead(pref), now, reply);
            &&& e == c && o.act is None && !o.stop
            &&& o.next == seq![
                TodoView::Gpu(
                    GpuTask::Pin(gpu_flow::session_mode(reply, pref).0 == GpuMode::Dgpu),
                ),
            ]
        }),
{
    assert(gpu_flow::gpu_step(c, m, GpuTask::PinRead(pref), now, reply).1.next =~= seq![
        TodoView::Gpu(GpuTask::Pin(gpu_flow::session_mode(reply, pref).0 == GpuMode::Dgpu)),
    ]);
}

/// A pin that the service does not have yet is asked for, as it is. One that the service
/// took is remembered; one that it did not take marks the service as gone.
pub proof fn pins_reach_the_service(c: CtxView, m: Mode, awake: bool, now: int, reply: Reply)
    ensures
        ({
            let (e, o) = gpu_flow::gpu_step(c, m, GpuTask::Pin(awake), now, reply);
            let news = c.gpu.pinned != Some(awake) && c.power.powerd_available;
            &&& !o.stop && e.power == c.power && e.inputs == c.inputs
            &&& !news ==> e == c && o.act is None && o.next.len() == 0
            &&& news && !m.shadow ==> e == c && o.act == Some(
                Action::<Seq<char>>::SetDgpuAwake(awake),
            ) && o.next == seq![TodoView::Gpu(GpuTask::PinSet(awake))]
            &&& news && m.shadow ==> o.act is None && o.next.len() == 0 && e.gpu.pinned == Some(
                awake,
            )
        }),
        ({
            let (e, o) = gpu_flow::gpu_step(c, m, GpuTask::PinSet(awake), now, reply);
            &&& o.act is None && o.next.len() == 0 && !o.stop
            &&& reply.yes() ==> e.gpu.pinned == Some(awake) && e.power == c.power
            &&& !reply.yes() ==> e.gpu == c.gpu && !e.power.powerd_available
                && e.power.powerd_warned && e.power.applied == c.power.applied && e.power.manual
                == c.power.manual
            &&& e.inputs == c.inputs && e.profile == c.profile
        }),
{
    let o = gpu_flow::gpu_step(c, m, GpuTask::Pin(awake), now, reply).1;
    if o.act is Some {
        assert(o.next =~= seq![TodoView::Gpu(GpuTask::PinSet(awake))]);
    }
}

} // verus!
