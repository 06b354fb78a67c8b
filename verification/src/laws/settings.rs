//! What the power configuration means, line by line.
use vstd::prelude::*;

use crate::laws::directives;
use crate::laws::directives::directives_are_read_back;
use crate::number;
use crate::power;
use crate::power::{profile_words_roundtrip, BaseState, ConfView, LidMode, PowerProfile};
use crate::profiles;
use crate::text;

verus! {

/// The key that a base state is configured under.
pub open spec fn key_for(b: BaseState) -> Seq<char> {
    match b {
        BaseState::DockedAc => "docked-ac"@,
        BaseState::Ac => "ac"@,
        BaseState::Battery => "battery"@,
        BaseState::BatteryLow => "battery-low"@,
    }
}

proof fn lemma_keys(b: BaseState)
    ensures
        profiles::is_key(key_for(b), true),
        key_for(b) == b.word(),
        key_for(b) != "battery-low-percent"@,
        key_for(b) != "lid"@,
        power::slot_of(key_for(b)) == Some(b),
        profiles::is_key("battery-low-percent"@, true),
        profiles::is_key("lid"@, true),
{
    reveal_strlit("docked-ac");
    reveal_strlit("ac");
    reveal_strlit("battery");
    reveal_strlit("battery-low");
    reveal_strlit("battery-low-percent");
    reveal_strlit("lid");
    assert("docked-ac"@.len() == 9 && "ac"@.len() == 2 && "battery"@.len() == 7
        && "battery-low"@.len() == 11 && "battery-low-percent"@.len() == 19 && "lid"@.len() == 3);
}

proof fn lemma_profile_is_value(p: PowerProfile)
    ensures
        directives::is_value(p.word()),
{
    reveal_strlit("power-saver");
    reveal_strlit("balanced");
    reveal_strlit("performance");
}

/// A line for a base state gives that base state its profile, and leaves the others, the
/// threshold, the lid and the warnings as they were.
pub proof fn lines_set_their_base_state(c: ConfView, b: BaseState, p: PowerProfile, other: BaseState)
    ensures
        ({
            let e = power::conf_line(c, directives::directive(key_for(b), p.word()));
            &&& e.conf.policy.at(b) == p
            &&& other != b ==> e.conf.policy.at(other) == c.conf.policy.at(other)
            &&& e.conf.battery_low_pct == c.conf.battery_low_pct
            &&& e.conf.lid == c.conf.lid
            &&& e.warnings == c.warnings
        }),
{
    lemma_keys(b);
    lemma_profile_is_value(p);
    profile_words_roundtrip(p);
    directives_are_read_back(key_for(b), p.word(), true);
}

/// A configuration of one line for a base state has that profile there, the defaults
/// everywhere else, and no warnings. Without it the charger means balanced and the
/// battery means power-saver.
pub proof fn single_lines_leave_the_defaults(b: BaseState, p: PowerProfile, other: BaseState)
    ensures
        ({
            let e = power::conf_of(directives::directive(key_for(b), p.word()) + "\n"@);
            &&& e.conf.policy.at(b) == p
            &&& other != b ==> e.conf.policy.at(other) == (if other == BaseState::Battery || other
                == BaseState::BatteryLow {
                PowerProfile::PowerSaver
            } else {
                PowerProfile::Balanced
            })
            &&& e.conf.battery_low_pct == 15
            &&& e.conf.lid == LidMode::Present
            &&& e.warnings.len() == 0
        }),
{
    let line = directives::directive(key_for(b), p.word());
    lemma_keys(b);
    lemma_profile_is_value(p);
    directives_are_read_back(key_for(b), p.word(), true);
    lines_set_their_base_state(power::blank_conf(), b, p, other);
    later_lines_build_on_earlier_ones(power::blank_conf(), Seq::empty(), line);
    assert(Seq::<Seq<char>>::empty().push(line) =~= seq![line]);
}

/// Each line builds on what the lines before it made of the configuration.
pub proof fn later_lines_build_on_earlier_ones(c: ConfView, lines: Seq<Seq<char>>, line: Seq<char>)
    ensures
        power::conf_lines(c, lines.push(line)) == power::conf_line(
            power::conf_lines(c, lines),
            line,
        ),
        lines.len() == 0 ==> power::conf_lines(c, lines) == c,
    decreases lines.len(),
{
    let all = lines.push(line);
    if lines.len() == 0 {
        assert(all.skip(1) =~= Seq::<Seq<char>>::empty());
        assert(power::conf_lines(power::conf_line(c, line), all.skip(1)) == power::conf_line(
            c,
            line,
        ));
    } else {
        assert(all[0] == lines[0]);
        assert(all.skip(1) =~= lines.skip(1).push(line));
        later_lines_build_on_earlier_ones(power::conf_line(c, lines[0]), lines.skip(1), line);
    }
}

/// A number of percents sets the threshold, kept between 1 and 50, and nothing else.
pub proof fn the_threshold_is_set(c: ConfView, n: int)
    requires
        i64::MIN <= n <= i64::MAX,
    ensures
        ({
            let e = power::conf_line(
                c,
                directives::directive("battery-low-percent"@, number::signed_decimal(n)),
            );
            &&& 1 <= n <= 50 ==> e.conf.battery_low_pct == n
            &&& n < 1 ==> e.conf.battery_low_pct == 1
            &&& n > 50 ==> e.conf.battery_low_pct == 50
            &&& e.conf.policy == c.conf.policy
            &&& e.conf.lid == c.conf.lid
            &&& e.warnings == c.warnings
        }),
{
    lemma_keys(BaseState::Ac);
    let val = number::signed_decimal(n);
    let body = number::decimal((if n < 0 {
        -n
    } else {
        n
    }) as nat);
    number::lemma_decimal_digits((if n < 0 {
        -n
    } else {
        n
    }) as nat);
    number::lemma_decimal_roundtrip(n);
    assert(number::is_digit(body[0]));
    assert(number::is_digit(body.last()));
    assert forall|i: int| 0 <= i < val.len() implies val[i] == '-' || number::is_digit(val[i]) by {
        if n < 0 && i > 0 {
            assert(val[i] == body[i - 1]);
        }
    }
    assert(!val.contains('\n'));
    assert(val.last() == body.last());
    directives_are_read_back("battery-low-percent"@, val, true);
}

/// A machine is declared lidless by `absent` and to have a lid by `present`.
pub proof fn the_lid_is_declared(c: ConfView)
    ensures
        ({
            let gone = power::conf_line(c, directives::directive("lid"@, "absent"@));
            let there = power::conf_line(c, directives::directive("lid"@, "present"@));
            &&& gone.conf.lid == LidMode::Absent && there.conf.lid == LidMode::Present
            &&& gone.conf.policy == c.conf.policy && there.conf.policy == c.conf.policy
            &&& gone.conf.battery_low_pct == c.conf.battery_low_pct
            &&& there.conf.battery_low_pct == c.conf.battery_low_pct
            &&& gone.warnings == c.warnings && there.warnings == c.warnings
        }),
{
    lemma_keys(BaseState::Ac);
    reveal_strlit("absent");
    reveal_strlit("present");
    reveal_strlit("lid");
    reveal_strlit("battery-low-percent");
    assert("absent"@.len() != "present"@.len());
    assert("lid"@.len() != "battery-low-percent"@.len());
    directives_are_read_back("lid"@, "absent"@, true);
    directives_are_read_back("lid"@, "present"@, true);
}

/// A value that is no profile, a lid that is neither there nor absent, and a key that
/// means nothing each change nothing and are warned about once.
pub proof fn mistakes_change_nothing(c: ConfView, key: Seq<char>, val: Seq<char>)
    requires
        profiles::is_key(key, true),
        directives::is_value(val),
        val != "power-saver"@ && val != "balanced"@ && val != "performance"@,
        val != "present"@ && val != "absent"@,
        key != "battery-low-percent"@,
    ensures
        power::conf_line(c, directives::directive(key, val)).conf == c.conf,
        power::conf_line(c, directives::directive(key, val)).warnings.len() == c.warnings.len() + 1,
{
    directives_are_read_back(key, val, true);
}

/// A threshold that is no number changes nothing, and is warned about once.
pub proof fn bad_thresholds_change_nothing(c: ConfView, val: Seq<char>)
    requires
        directives::is_value(val),
        number::integer_of(val) is None,
    ensures
        ({
            let e = power::conf_line(c, directives::directive("battery-low-percent"@, val));
            &&& e.conf == c.conf
            &&& e.warnings.len() == c.warnings.len() + 1
        }),
{
    lemma_keys(BaseState::Ac);
    directives_are_read_back("battery-low-percent"@, val, true);
}

/// A line that is no directive is passed over; one that starts like a directive and is none
/// is warned about once, and changes nothing.
pub proof fn malformed_lines_change_nothing(c: ConfView, line: Seq<char>)
    ensures
        !text::has_prefix(line, "#@"@) ==> power::conf_line(c, line) == c,
        text::has_prefix(line, "#@"@) && profiles::directive_of(line, true) is None ==> {
            let e = power::conf_line(c, line);
            &&& e.conf == c.conf
            &&& e.warnings.len() == c.warnings.len() + 1
        },
{
}

// ------------------------------------------------------------------------ base states

/// Which base state a machine is in: the settled charger decides between the two sides,
/// a monitor between the two of the charger, a low battery between the other two. The
/// policy has its own profile for each.
pub proof fn base_states_are_told_apart(on_ac: bool, monitors: u32, low: bool)
    ensures
        ({
            let b = power::base_of(on_ac, monitors, low);
            &&& b == BaseState::DockedAc <==> on_ac && monitors > 0
            &&& b == BaseState::Ac <==> on_ac && monitors == 0
            &&& b == BaseState::BatteryLow <==> !on_ac && low
            &&& b == BaseState::Battery <==> !on_ac && !low
        }),
{
}

/// A policy that is given a profile for a base state has it there and nowhere else.
pub proof fn policies_keep_their_slots(
    p: power::PowerPolicy,
    b: BaseState,
    profile: PowerProfile,
    other: BaseState,
)
    ensures
        p.with(b, profile).at(b) == profile,
        other != b ==> p.with(b, profile).at(other) == p.at(other),
        p.at(BaseState::DockedAc) == p.docked_ac && p.at(BaseState::Ac) == p.ac,
        p.at(BaseState::Battery) == p.battery && p.at(BaseState::BatteryLow) == p.battery_low,
{
}

/// A warning names the key, what was written and what is used instead.
pub proof fn warnings_name_what_is_used(c: ConfView, b: BaseState, val: Seq<char>)
    requires
        directives::is_value(val),
        val != "power-saver"@ && val != "balanced"@ && val != "performance"@,
    ensures
        power::conf_line(c, directives::directive(key_for(b), val)).warnings == c.warnings.push(
            key_for(b) + " must be one of power-saver|balanced|performance, got "@
                + text::debug_of(val) + " — using "@ + c.conf.policy.at(b).word(),
        ),
{
    lemma_keys(b);
    directives_are_read_back(key_for(b), val, true);
}

} // verus!
