//! The rules that the machine goes by: which state the world calls for, what a timer and a
//! resume do, what counts as a low battery, and whose change of the platform profile it was.
use vstd::prelude::*;

use crate::fsm;
use crate::fsm::{EventKind, State, StuckScreenInputs, WorldInputs};
use crate::power;
use crate::power::{BaseState, EntryView, LidMode, Percent, PowerProfile, TrackerView};
use crate::power_policy;
use crate::ctx::LightView;

verus! {

// ------------------------------------------------------------------------- the states

/// What the world calls for, input by input: an open lid without a request is an open lid;
/// a closed one is docked as soon as a monitor is there; without one, and with a request in
/// any case, a claim on an unlocked session defers what would else be a countdown. A request
/// on a low battery heeds no claim.
pub proof fn the_world_decides(w: WorldInputs)
    ensures
        !w.suspend_requested && !w.lid_closed ==> fsm::world_of(w) == State::LidOpen,
        !w.suspend_requested && w.lid_closed && w.ext_mon_count > 0 ==> fsm::world_of(w)
            == State::Docked,
        !w.suspend_requested && w.lid_closed && w.ext_mon_count == 0 && w.inhibitor && !w.locked
            ==> fsm::world_of(w) == State::Deferred,
        !w.suspend_requested && w.lid_closed && w.ext_mon_count == 0 && (!w.inhibitor || w.locked)
            ==> fsm::world_of(w) == State::Countdown,
        w.suspend_requested && w.battery_low ==> fsm::world_of(w) == State::Countdown,
        w.suspend_requested && !w.battery_low && w.inhibitor && !w.locked ==> fsm::world_of(w)
            == State::Deferred,
        w.suspend_requested && !w.battery_low && (!w.inhibitor || w.locked) ==> fsm::world_of(w)
            == State::Countdown,
{
}

/// An expired timer suspends a machine that still has every reason to; one whose lid was
/// opened, or that was docked or claimed in the meantime, goes where it belongs; outside a
/// countdown it means nothing.
pub proof fn expired_timers_are_held_against_the_world(state: State, w: WorldInputs)
    ensures
        ({
            let r = fsm::desired_of(state, EventKind::TimerExpired, w);
            &&& state != State::Countdown ==> r is None
            &&& state == State::Countdown && !w.suspend_requested && !w.lid_closed ==> r == Some(
                State::LidOpen,
            )
            &&& state == State::Countdown && !w.suspend_requested && w.lid_closed
                && w.ext_mon_count > 0 ==> r == Some(State::Docked)
            &&& state == State::Countdown && w.suspend_requested && w.battery_low ==> r == Some(
                State::Suspending,
            )
            &&& state == State::Countdown && w.suspend_requested && !w.inhibitor ==> r == Some(
                State::Suspending,
            )
            &&& state == State::Countdown && w.lid_closed && w.ext_mon_count == 0 && w.locked
                ==> r == Some(State::Suspending)
            &&& state == State::Countdown && w.inhibitor && !w.locked && !w.battery_low && (
            w.suspend_requested || (w.lid_closed && w.ext_mon_count == 0)) ==> r == Some(
                State::Deferred,
            )
        }),
{
}

/// A machine that resumes goes where the world has it: to an open lid, to its dock, or into
/// another countdown. A resume of a machine that did not suspend means nothing.
pub proof fn resumes_go_where_the_world_is(state: State, w: WorldInputs)
    ensures
        ({
            let r = fsm::desired_of(state, EventKind::Resumed, w);
            &&& state != State::Suspending ==> r is None
            &&& state == State::Suspending && !w.suspend_requested && !w.lid_closed ==> r == Some(
                State::LidOpen,
            )
            &&& state == State::Suspending && !w.suspend_requested && w.lid_closed
                && w.ext_mon_count > 0 ==> r == Some(State::Docked)
            &&& state == State::Suspending && !w.suspend_requested && w.lid_closed
                && w.ext_mon_count == 0 && !w.inhibitor ==> r == Some(State::Countdown)
        }),
{
}

/// Any other event moves a machine that is awake to where the world has it, and a machine
/// that is on its way down nowhere.
pub proof fn other_events_follow_the_world(state: State, ev: EventKind, w: WorldInputs)
    requires
        ev != EventKind::TimerExpired,
        ev != EventKind::Resumed,
    ensures
        ({
            let r = fsm::desired_of(state, ev, w);
            let open = !w.suspend_requested && !w.lid_closed;
            let docked = !w.suspend_requested && w.lid_closed && w.ext_mon_count > 0;
            &&& state == State::Suspending ==> r is None
            &&& state != State::Suspending && open ==> r == (if state == State::LidOpen {
                None
            } else {
                Some(State::LidOpen)
            })
            &&& state != State::Suspending && docked ==> r == (if state == State::Docked {
                None
            } else {
                Some(State::Docked)
            })
            &&& state != State::Suspending && !open && !docked && !w.inhibitor ==> r == (if state
                == State::Countdown {
                None
            } else {
                Some(State::Countdown)
            })
            &&& state != State::Suspending && !open && !docked && w.inhibitor && !w.locked
                && !w.battery_low ==> r == (if state == State::Deferred {
                None
            } else {
                Some(State::Deferred)
            })
        }),
{
}

/// A dark screen is repaired on a machine that is meant to show something: at once where
/// the session is unlocked, and where it is locked as soon as somebody is there.
pub proof fn dark_screens_are_repaired(main: State, s: StuckScreenInputs)
    ensures
        !s.dpms_off ==> !fsm::stuck_off(main, s),
        main == State::Deferred || main == State::Countdown || main == State::Suspending
            ==> !fsm::stuck_off(main, s),
        s.dpms_off && (main == State::LidOpen || main == State::Docked) && !s.locked
            ==> fsm::stuck_off(main, s),
        s.dpms_off && (main == State::LidOpen || main == State::Docked) && s.locked
            ==> fsm::stuck_off(main, s) == s.cursor_moved,
{
}

// ------------------------------------------------------------------------ the battery

/// The battery runs low at the threshold and recovers three percent above it; in between,
/// and for a sample that is no number, nothing changes.
pub proof fn batteries_run_low_and_recover(low: bool, whole: i64, fraction: bool, threshold: int)
    ensures
        ({
            let after = power::low_after(low, Percent::Known { whole, fraction }, threshold);
            &&& whole < threshold ==> after
            &&& whole == threshold && !fraction ==> after
            &&& whole >= threshold + 3 ==> !after
            &&& threshold < whole < threshold + 3 ==> after == low
            &&& whole == threshold && fraction ==> after == low
        }),
        power::low_after(low, Percent::NotANumber, threshold) == low,
{
}

/// The defaults: balanced on the charger, saving on the battery, low at fifteen percent, and
/// a lid.
pub proof fn defaults_save_the_battery()
    ensures
        ({
            let conf = power::default_conf();
            &&& conf.policy.docked_ac == PowerProfile::Balanced
            &&& conf.policy.ac == PowerProfile::Balanced
            &&& conf.policy.battery == PowerProfile::PowerSaver
            &&& conf.policy.battery_low == PowerProfile::PowerSaver
            &&& conf.battery_low_pct == 15
            &&& conf.lid == LidMode::Present
        }),
{
}

/// A daemon that has seen nothing takes the machine to be open, on its charger, unlocked and
/// unclaimed, with a service to talk to, nothing in force and the session still unknown.
pub proof fn nothing_is_seen_at_first()
    ensures
        ({
            let c = crate::ctx::initial_ctx();
            let i = c.inputs;
            &&& !i.lid_closed && i.lid_present && i.ext_mon_count == 0 && i.on_ac
            &&& !i.logind_inhibitor && !i.wayland_inhibitor && !i.locked && !i.suspend_requested
            &&& i.state == State::LidOpen && i.last_cursor_pos is None
            &&& c.power.on_ac_settled && !c.power.low_battery && c.power.powerd_available
                && !c.power.powerd_warned
            &&& c.power.battery_percent == Some(Percent::Known { whole: 100, fraction: false })
            &&& c.power.battery_low_pct == 15 && c.power.policy == power::default_policy()
            &&& c.power.manual is None && c.power.manual_base is None && c.power.applied is None
                && c.power.last_base is None
            &&& c.profile.current is None && c.profile.rev is None && c.profile.edp_policy
                == crate::profiles::EdpPolicy::Auto
            &&& c.gpu.pending && c.gpu.actual is None && c.gpu.pinned is None
                && c.gpu.last_notified is None && c.gpu.last_notify_at is None
            &&& c.self_writes.entries.len() == 0 && c.self_writes.last_apply is None
            &&& c.backlight.dev is None && c.backlight.set is None && c.backlight.saved is None
        }),
{
}

/// Which side of the charger a base state is on.
pub proof fn sides_of_the_charger()
    ensures
        power::axis_of(BaseState::Ac) == power::AcAxis::Ac,
        power::axis_of(BaseState::DockedAc) == power::AcAxis::Ac,
        power::axis_of(BaseState::Battery) == power::AcAxis::Battery,
        power::axis_of(BaseState::BatteryLow) == power::AcAxis::Battery,
{
}

/// A level is written as it is wanted, but never dark and never above the range.
pub proof fn levels_stay_in_range(value: u32, max: u32)
    requires
        max >= 1,
    ensures
        1 <= power_policy::written_level(value, max) <= max,
        1 <= value <= max ==> power_policy::written_level(value, max) == value,
{
}

/// Somebody moved the brightness where it is more than half a percent of the range away
/// from where it was put, to either side. Without a level that was put there is nothing to
/// go by.
pub proof fn hands_on_the_brightness_are_noticed(l: LightView, set: u32, level: u32)
    requires
        l.set == Some(set),
    ensures
        power_policy::took_over(l, Some(level)) == (level - set > l.max / 200 || set - level > l.max
            / 200),
        !power_policy::took_over(l, None),
        !power_policy::took_over(LightView { set: None, ..l }, Some(level)),
{
}

// ----------------------------------------------------------------- platform profiles

/// The values that stand for a profile, and what any value stands for: one that nobody
/// knows stands for the balanced profile.
pub proof fn platform_values_have_their_meaning(value: Seq<char>)
    ensures
        power::chain_of(PowerProfile::PowerSaver) == seq!["low-power"@, "quiet"@],
        power::chain_of(PowerProfile::Balanced) == seq!["balanced"@],
        power::chain_of(PowerProfile::Performance) == seq!["performance"@],
        power::profile_of_value(Some("low-power"@)) == PowerProfile::PowerSaver,
        power::profile_of_value(Some("quiet"@)) == PowerProfile::PowerSaver,
        power::profile_of_value(Some("performance"@)) == PowerProfile::Performance,
        value != "low-power"@ && value != "quiet"@ && value != "performance"@
            ==> power::profile_of_value(Some(value)) == PowerProfile::Balanced,
        power::profile_of_value(None) == PowerProfile::Balanced,
{
    reveal_strlit("low-power");
    reveal_strlit("quiet");
    reveal_strlit("performance");
    assert("performance"@[0] != "low-power"@[0]);
    assert("performance"@[0] != "quiet"@[0]);
}

/// The names of the profiles, and that no other word names one.
pub proof fn profiles_have_their_names(word: Seq<char>)
    ensures
        PowerProfile::PowerSaver.word() == "power-saver"@,
        PowerProfile::Balanced.word() == "balanced"@,
        PowerProfile::Performance.word() == "performance"@,
        PowerProfile::of_word("power-saver"@) == Some(PowerProfile::PowerSaver),
        PowerProfile::of_word("balanced"@) == Some(PowerProfile::Balanced),
        PowerProfile::of_word("performance"@) == Some(PowerProfile::Performance),
        word != "power-saver"@ && word != "balanced"@ && word != "performance"@
            ==> PowerProfile::of_word(word) is None,
{
    power::profile_words_roundtrip(PowerProfile::PowerSaver);
    power::profile_words_roundtrip(PowerProfile::Balanced);
    power::profile_words_roundtrip(PowerProfile::Performance);
}

// ----------------------------------------------------------------------- own writes

proof fn lemma_owner_is_first(s: Seq<EntryView>, value: Seq<char>, k: int)
    requires
        0 <= k < s.len(),
        s[k].values.contains(value),
        forall|i: int| 0 <= i < k ==> !(#[trigger] s[i]).values.contains(value),
    ensures
        power::owner_of(s, value) == k,
    decreases k,
{
    if k > 0 {
        let rest = s.skip(1);
        assert forall|i: int| 0 <= i < k - 1 implies !(#[trigger] rest[i]).values.contains(
            value,
        ) by {
            assert(rest[i] == s[i + 1]);
        }
        assert(!s[0].values.contains(value));
        lemma_owner_is_first(rest, value, k - 1);
    }
}

/// A change to a value that an apply is expected to show up as is its own, and uses the
/// expectation up: the first that accounts for the value goes, and the others stay.
pub proof fn expectations_are_used_up(t: TrackerView, now: int, value: Seq<char>, k: int)
    requires
        forall|i: int| 0 <= i < t.entries.len() ==> (#[trigger] t.entries[i]).expiry > now,
        0 <= k < t.entries.len(),
        t.entries[k].values.contains(value),
        forall|i: int| 0 <= i < k ==> !(#[trigger] t.entries[i]).values.contains(value),
    ensures
        power::self_write_of(t, now, Some(value)).0,
        power::self_write_of(t, now, Some(value)).1.entries == t.entries.remove(k),
        power::self_write_of(t, now, Some(value)).1.last_apply == t.last_apply,
{
    power::live_entries_have_not_lapsed(t.entries, now);
    lemma_owner_is_first(t.entries, value, k);
}

/// The first change after an apply, of the value it was made for, is its own and leaves
/// nothing behind; five seconds after the apply any change is somebody else's.
pub proof fn applies_are_expected_for_five_seconds(at: int, now: int, p: PowerProfile)
    requires
        at <= now,
    ensures
        ({
            let fresh = TrackerView { entries: seq![], last_apply: None };
            let t = power::registered(fresh, at, p);
            let value = match p {
                PowerProfile::PowerSaver => "low-power"@,
                PowerProfile::Balanced => "balanced"@,
                PowerProfile::Performance => "performance"@,
            };
            &&& power::self_write_of(t, now, Some(value)).0 == (now < at + 5_000_000_000)
            &&& power::self_write_of(t, now, Some(value)).1.entries.len() == 0
            &&& power::self_write_of(t, now, None).0 == (now < at + 5_000_000_000)
        }),
{
    let fresh = TrackerView { entries: seq![], last_apply: None };
    let t = power::registered(fresh, at, p);
    let value = match p {
        PowerProfile::PowerSaver => "low-power"@,
        PowerProfile::Balanced => "balanced"@,
        PowerProfile::Performance => "performance"@,
    };
    assert(power::chain_of(p)[0] == value);
    assert(t.entries[0].values.contains(value));
    if now < at + 5_000_000_000 {
        expectations_are_used_up(t, now, value, 0);
    } else {
        power::external_outside_the_window(t, now, Some(value));
        power::external_outside_the_window(t, now, None);
    }
}

} // verus!
