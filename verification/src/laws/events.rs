//! What events do: to the context, and to the state once the queue is worked off.
use vstd::prelude::*;

use crate::ctx::{CtxView, Inputs};
use crate::dispatcher;
use crate::dispatcher::DispatcherView;
use crate::event::Event;
use crate::fsm::{EventKind, State};
use crate::main_flow;
use crate::main_flow::Mode;
use crate::power::{Percent, PowerProfile};
use crate::safety;
use crate::tasks::{MainTask, Reply, Task, TodoView};
use crate::text;

verus! {

// ------------------------------------------------------------------------- inputs

/// Each input is set by the event that reports it, to what the event says, and by no
/// other. A lid report counts only where there is a lid, and waking up takes a suspend
/// request back.
pub proof fn each_input_has_its_event(d: DispatcherView, now: int, ev: Event)
    ensures
        ({
            let i = d.ctx.inputs;
            let j = dispatcher::receiving(d, now, ev).ctx.inputs;
            &&& j.lid_closed == (match ev {
                Event::Lid(closed) => if i.lid_present {
                    closed
                } else {
                    i.lid_closed
                },
                _ => i.lid_closed,
            })
            &&& j.wayland_inhibitor == (match ev {
                Event::Inhibitor { wayland: true, active } => active,
                _ => i.wayland_inhibitor,
            })
            &&& j.logind_inhibitor == (match ev {
                Event::Inhibitor { wayland: false, active } => active,
                _ => i.logind_inhibitor,
            })
            &&& j.locked == (match ev {
                Event::LockChanged(locked) => locked,
                _ => i.locked,
            })
            &&& j.on_ac == (match ev {
                Event::AcChanged(on_ac) => on_ac,
                _ => i.on_ac,
            })
            &&& j.suspend_requested == (match ev {
                Event::SuspendRequestChanged(word) => word is Some,
                Event::Resumed => false,
                _ => i.suspend_requested,
            })
            &&& j.lid_present == i.lid_present
            &&& j.ext_mon_count == i.ext_mon_count
            &&& j.state == i.state
            &&& j.last_cursor_pos == i.last_cursor_pos
        }),
{
}

/// Events leave alone what they do not report on: the profile in force, the backlight,
/// and, but for the power service that comes back, the session's GPUs.
pub proof fn events_keep_to_their_subject(d: DispatcherView, now: int, ev: Event)
    ensures
        ({
            let c = d.ctx;
            let e = dispatcher::receiving(d, now, ev).ctx;
            &&& e.profile == c.profile
            &&& e.backlight == c.backlight
            &&& !(ev is PowerdAppeared) ==> e.gpu == c.gpu
            &&& e.gpu == (crate::ctx::GpuView { pinned: e.gpu.pinned, ..c.gpu })
            &&& !(ev is PlatformProfileChanged) ==> e.self_writes == c.self_writes
            &&& !(ev is PlatformProfileChanged || ev is PowerOverrideChanged || ev is BatteryPercent
                || ev is PowerdAppeared || ev is PowerAcSettled) ==> e.power == c.power
            &&& e.power.policy == c.power.policy
            &&& e.power.battery_low_pct == c.power.battery_low_pct
            &&& e.power.last_base == c.power.last_base
        }),
{
}

// ---------------------------------------------------------------------------- power

/// A sample of the battery is kept, sets the low flag at or below the threshold, clears
/// it three percent above, and changes nothing else.
pub proof fn battery_samples_are_taken_in(d: DispatcherView, now: int, whole: i64, fraction: bool)
    ensures
        ({
            let p = d.ctx.power;
            let pct = Percent::Known { whole, fraction };
            let q = dispatcher::receiving(d, now, Event::BatteryPercent(pct)).ctx.power;
            &&& q.battery_percent == Some(pct)
            &&& (whole < p.battery_low_pct || whole == p.battery_low_pct && !fraction)
                ==> q.low_battery
            &&& whole >= p.battery_low_pct + 3 ==> !q.low_battery
            &&& (p.battery_low_pct < whole < p.battery_low_pct + 3 || whole == p.battery_low_pct
                && fraction) ==> q.low_battery == p.low_battery
            &&& q.on_ac_settled == p.on_ac_settled
            &&& q.manual == p.manual && q.manual_base == p.manual_base
            &&& q.applied == p.applied && q.powerd_available == p.powerd_available
        }),
{
}

/// A sample that is no number leaves the low flag as it was.
pub proof fn bad_samples_hold_the_flag(d: DispatcherView, now: int)
    ensures
        dispatcher::receiving(
            d,
            now,
            Event::BatteryPercent(Percent::NotANumber),
        ).ctx.power.low_battery == d.ctx.power.low_battery,
{
}

/// A charger that has settled, and a power service that has come back, make the raw
/// reading of the charger the settled one. Nothing else does.
pub proof fn the_charger_settles(d: DispatcherView, now: int, ev: Event)
    ensures
        dispatcher::receiving(d, now, ev).ctx.power.on_ac_settled == (if ev is PowerAcSettled
            || ev is PowerdAppeared {
            d.ctx.inputs.on_ac
        } else {
            d.ctx.power.on_ac_settled
        }),
{
}

/// A power service that was gone is used again when it appears: nothing counts as applied
/// or pinned, so that both are pushed anew. One that was never gone keeps what it has.
pub proof fn the_service_comes_back(d: DispatcherView, now: int)
    ensures
        ({
            let e = dispatcher::receiving(d, now, Event::PowerdAppeared).ctx;
            &&& e.power.powerd_available
            &&& !d.ctx.power.powerd_available ==> e.power.applied is None && e.gpu.pinned is None
                && !e.power.powerd_warned
            &&& d.ctx.power.powerd_available ==> e.power.applied == d.ctx.power.applied
                && e.gpu.pinned == d.ctx.gpu.pinned
            &&& e.power.manual == d.ctx.power.manual
        }),
{
}

/// A missing override file ends the override, the name of a profile makes that profile
/// the override, and any other word changes nothing. An override that is already in
/// force keeps the base state that it was bound to; a new one has none yet.
pub proof fn the_override_file_is_followed(d: DispatcherView, now: int, word: Option<String>)
    ensures
        ({
            let p = d.ctx.power;
            let q = dispatcher::receiving(d, now, Event::PowerOverrideChanged(word)).ctx.power;
            let named = match text::opt_string(word) {
                Some(w) => if w == "power-saver"@ {
                    Some(PowerProfile::PowerSaver)
                } else if w == "balanced"@ {
                    Some(PowerProfile::Balanced)
                } else if w == "performance"@ {
                    Some(PowerProfile::Performance)
                } else {
                    None
                },
                None => None,
            };
            &&& word is None ==> q.manual is None && q.manual_base is None
            &&& named is Some ==> q.manual == named
            &&& named is Some && p.manual != named ==> q.manual_base is None
            &&& named is Some && p.manual == named ==> q.manual_base == p.manual_base
            &&& word is Some && named is None ==> q == p
        }),
{
}

/// A change of the platform profile that is somebody else's becomes the override, not
/// yet bound to a base state; in the suppression window of an own apply none does.
pub proof fn foreign_changes_are_adopted(d: DispatcherView, now: int, value: Option<String>)
    requires
        d.ctx.self_writes.entries.len() == 0,
    ensures
        ({
            let q = dispatcher::receiving(d, now, Event::PlatformProfileChanged(value)).ctx.power;
            let v = text::opt_string(value);
            let recent = d.ctx.self_writes.last_apply matches Some(at) && now - at < 5_000_000_000;
            &&& recent ==> q == d.ctx.power
            &&& !recent ==> q.manual_base is None
            &&& !recent && (v == Some("low-power"@) || v == Some("quiet"@)) ==> q.manual == Some(
                PowerProfile::PowerSaver,
            )
            &&& !recent && v == Some("performance"@) ==> q.manual == Some(PowerProfile::Performance)
            &&& !recent && v != Some("low-power"@) && v != Some("quiet"@) && v != Some(
                "performance"@,
            ) ==> q.manual == Some(PowerProfile::Balanced)
        }),
{
    reveal_strlit("low-power");
    reveal_strlit("quiet");
    reveal_strlit("performance");
    assert("performance"@[0] != "low-power"@[0]);
    assert("performance"@[0] != "quiet"@[0]);
    let e = crate::power::live_entries(d.ctx.self_writes.entries, now);
    assert(e.len() == 0);
}

// ----------------------------------------------------------------------- whole runs

/// The task hands out an action or sees to the grace timer, and changes nothing.
pub open spec fn still(t: TodoView) -> bool {
    match t {
        Task::Emit(_) => true,
        Task::Main(MainTask::StartGrace { .. }) => true,
        Task::Main(MainTask::GraceProbed) => true,
        _ => false,
    }
}

pub open spec fn all_still(s: Seq<TodoView>) -> bool {
    forall|i: int| 0 <= i < s.len() ==> still(#[trigger] s[i])
}

proof fn lemma_still_run(d: DispatcherView, script: Seq<(int, Reply)>)
    requires
        all_still(d.todo),
    ensures
        all_still(safety::ran(d, script).todo),
        safety::ran(d, script).ctx == d.ctx,
        safety::ran(d, script).mode == d.mode,
    decreases script.len(),
{
    if script.len() > 0 {
        lemma_still_run(d, script.drop_last());
        let at = safety::ran(d, script.drop_last());
        if at.todo.len() > 0 {
            assert(still(at.todo[0]));
            let o = dispatcher::task_step(
                at.ctx,
                at.mode,
                at.todo[0],
                script.last().0,
                script.last().1,
            ).1;
            let all = o.next + at.todo.skip(1);
            assert forall|i: int| 0 <= i < all.len() implies still(#[trigger] all[i]) by {
                if i >= o.next.len() {
                    assert(all[i] == at.todo[i - o.next.len() + 1]);
                }
            }
        }
    }
}

/// A run is its first step, and then the rest.
pub proof fn lemma_first_step(d: DispatcherView, script: Seq<(int, Reply)>)
    requires
        script.len() > 0,
    ensures
        safety::ran(d, script) == safety::ran(
            dispatcher::stepped(d, script[0].0, script[0].1).0,
            script.skip(1),
        ),
    decreases script.len(),
{
    if script.len() == 1 {
        assert(script.drop_last() =~= Seq::<(int, Reply)>::empty());
        assert(script.skip(1) =~= Seq::<(int, Reply)>::empty());
        reveal_with_fuel(safety::ran, 2);
    } else {
        lemma_first_step(d, script.drop_last());
        assert(script.drop_last().skip(1) =~= script.skip(1).drop_last());
        assert(script.drop_last()[0] == script[0]);
        assert(script.skip(1).last() == script.last());
    }
}

/// The event reports one input of the main machine, and leads to nothing but its
/// evaluation.
pub open spec fn reports_an_input(ev: Event) -> bool {
    ev is Lid || ev is Inhibitor || ev is LockChanged || ev is SuspendRequestChanged
}

proof fn lemma_evaluated_first(d: DispatcherView, now: int, ev: Event)
    requires
        reports_an_input(ev),
        ev is Lid ==> d.ctx.inputs.lid_present,
    ensures
        ({
            let e = dispatcher::receiving(d, now, ev);
            &&& e.todo.len() == 1
            &&& e.todo[0] == TodoView::Main(MainTask::Evaluate(ev.as_kind()))
            &&& ev.as_kind() != EventKind::TimerExpired
            &&& ev.as_kind() != EventKind::Resumed
        }),
{
    let e = dispatcher::receiving(d, now, ev);
    assert(e.todo =~= seq![Task::Main(MainTask::Evaluate(ev.as_kind()))]);
}

/// Where the inputs of an awake machine lead: a standing request counts down, unless a
/// keep-awake claim on an unlocked machine defers it, which it cannot on a low battery;
/// without one the lid decides, then an external monitor, then a claim.
pub open spec fn right_state(c: CtxView, s: State) -> bool {
    let i = c.inputs;
    let claimed = (i.logind_inhibitor || i.wayland_inhibitor) && !i.locked;
    let draining = c.power.low_battery && !i.on_ac;
    &&& s == State::LidOpen <==> !i.suspend_requested && !i.lid_closed
    &&& s == State::Docked <==> !i.suspend_requested && i.lid_closed && i.ext_mon_count > 0
    &&& s == State::Deferred <==> claimed && (i.suspend_requested && !draining
        || !i.suspend_requested && i.lid_closed && i.ext_mon_count == 0)
    &&& s != State::Suspending
}

proof fn lemma_evaluation(c: CtxView, m: Mode, kind: EventKind)
    requires
        kind != EventKind::TimerExpired,
        kind != EventKind::Resumed,
        c.inputs.state != State::Suspending,
    ensures
        ({
            let (e, o) = main_flow::evaluated(c, m, kind);
            &&& right_state(e, e.inputs.state)
            &&& e == (CtxView { inputs: Inputs { state: e.inputs.state, ..c.inputs }, ..c })
            &&& all_still(o.next)
            &&& !o.stop
        }),
{
    let (e, o) = main_flow::evaluated(c, m, kind);
    assert(right_state(e, crate::fsm::world_of(c.world())));
}

/// An event that reports an input takes an awake machine to the state that its inputs
/// call for, with the very first step of the queue, and nothing that follows takes it
/// anywhere else.
pub proof fn reports_lead_to_the_right_state(
    d: DispatcherView,
    now: int,
    ev: Event,
    script: Seq<(int, Reply)>,
)
    requires
        reports_an_input(ev),
        ev is Lid ==> d.ctx.inputs.lid_present,
        d.ctx.inputs.state != State::Suspending,
        script.len() > 0,
    ensures
        ({
            let start = dispatcher::receiving(d, now, ev);
            let end = safety::ran(start, script);
            &&& right_state(end.ctx, end.ctx.inputs.state)
            &&& end.ctx.inputs == (Inputs { state: end.ctx.inputs.state, ..start.ctx.inputs })
            &&& end.ctx.power == d.ctx.power
            &&& end.mode == d.mode
        }),
{
    let start = dispatcher::receiving(d, now, ev);
    lemma_evaluated_first(d, now, ev);
    lemma_first_step(start, script);
    each_input_has_its_event(d, now, ev);
    lemma_evaluation(start.ctx, start.mode, ev.as_kind());
    let next = dispatcher::stepped(start, script[0].0, script[0].1).0;
    let (c, o) = main_flow::evaluated(start.ctx, start.mode, ev.as_kind());
    assert(dispatcher::task_step(start.ctx, start.mode, start.todo[0], script[0].0, script[0].1)
        == (c, o));
    assert(next.todo =~= o.next);
    lemma_still_run(next, script.skip(1));
}

/// A claim that is taken on an awake, unlocked machine without a request and without
/// external monitors defers the suspend of a closing lid, whatever its source; once it is
/// given back, closing the lid counts down. An open lid undoes either.
pub proof fn claims_defer_a_closing_lid(
    d: DispatcherView,
    now: int,
    wayland: bool,
    active: bool,
    first: Seq<(int, Reply)>,
    then_at: int,
    second: Seq<(int, Reply)>,
)
    requires
        d.ctx.inputs.lid_present,
        !d.ctx.inputs.locked,
        !d.ctx.inputs.suspend_requested,
        d.ctx.inputs.ext_mon_count == 0,
        d.ctx.inputs.state != State::Suspending,
        if wayland {
            !d.ctx.inputs.logind_inhibitor
        } else {
            !d.ctx.inputs.wayland_inhibitor
        },
        first.len() > 0,
        second.len() > 0,
    ensures
        ({
            let told = safety::ran(
                dispatcher::receiving(d, now, Event::Inhibitor { wayland, active }),
                first,
            );
            let shut = safety::ran(dispatcher::receiving(told, then_at, Event::Lid(true)), second);
            let open = safety::ran(dispatcher::receiving(told, then_at, Event::Lid(false)), second);
            &&& shut.ctx.inputs.state == (if active {
                State::Deferred
            } else {
                State::Countdown
            })
            &&& open.ctx.inputs.state == State::LidOpen
        }),
{
    let ev = Event::Inhibitor { wayland, active };
    reports_lead_to_the_right_state(d, now, ev, first);
    each_input_has_its_event(d, now, ev);
    let told = safety::ran(dispatcher::receiving(d, now, ev), first);
    reports_lead_to_the_right_state(told, then_at, Event::Lid(true), second);
    each_input_has_its_event(told, then_at, Event::Lid(true));
    reports_lead_to_the_right_state(told, then_at, Event::Lid(false), second);
    each_input_has_its_event(told, then_at, Event::Lid(false));
}

/// A lid that is reported by a machine declared lidless changes nothing and leads to
/// nothing.
pub proof fn lidless_reports_are_ignored(d: DispatcherView, now: int, closed: bool)
    requires
        !d.ctx.inputs.lid_present,
    ensures
        dispatcher::receiving(d, now, Event::Lid(closed)).ctx == d.ctx,
        dispatcher::receiving(d, now, Event::Lid(closed)).todo.len() == 0,
{
}

} // verus!
