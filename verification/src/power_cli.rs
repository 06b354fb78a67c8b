//! The `power` command: the manual override and what is shown of it.
use vstd::prelude::*;

use crate::json;
use crate::order;
use crate::power::{PowerPolicy, PowerProfile};
use crate::sysfs;
use crate::text;

verus! {

/// The override that a file's first word stands for. A word that is no profile counts as
/// none.
pub open spec fn override_in(word: Option<Seq<char>>) -> Option<PowerProfile> {
    match word {
        Some(w) => PowerProfile::of_word(w),
        None => None,
    }
}

/// The override that a file's first word stands for.
pub fn override_profile(word: Option<&str>) -> (r: Option<PowerProfile>)
    ensures
        r == override_in(text::opt_str(word)),
{
    match word {
        Some(w) => match PowerProfile::from_str(w) {
            Ok(p) => Some(p),
            Err(_) => None,
        },
        None => None,
    }
}

/// What is said of an action that the command does not have, and the code that it then
/// ends with.
pub fn unknown_action(word: &str) -> (r: (String, i32))
    ensures
        r.0@ == "unknown action: "@ + word@,
        r.1 == 2,
{
    (text::concat2("unknown action: ", word), 2)
}

/// What the command is told to do.
#[derive(Debug, Clone, Copy, PartialEq, Eq, Structural)]
pub enum PowerAction {
    SetTo,
    Cycle,
    Get,
    Status,
}

/// The action that a word stands for.
pub open spec fn action_of(word: Seq<char>) -> Option<PowerAction> {
    if word == "set"@ {
        Some(PowerAction::SetTo)
    } else if word == "cycle"@ {
        Some(PowerAction::Cycle)
    } else if word == "get"@ {
        Some(PowerAction::Get)
    } else if word == "status"@ {
        Some(PowerAction::Status)
    } else {
        None
    }
}

/// The action that a word stands for. A word that is none is answered with a complaint
/// and the code that the command ends with.
pub fn power_action(word: &str) -> (r: Result<PowerAction, (String, i32)>)
    ensures
        match action_of(word@) {
            Some(a) => r == Ok::<PowerAction, (String, i32)>(a),
            None => r matches Err(e) && e.0@ == "unknown action: "@ + word@ && e.1 == 2,
        },
{
    if text::str_eq(word, "set") {
        Ok(PowerAction::SetTo)
    } else if text::str_eq(word, "cycle") {
        Ok(PowerAction::Cycle)
    } else if text::str_eq(word, "get") {
        Ok(PowerAction::Get)
    } else if text::str_eq(word, "status") {
        Ok(PowerAction::Status)
    } else {
        Err(unknown_action(word))
    }
}

/// What `power set` does.
#[derive(Debug)]
pub enum SetAction<S> {
    /// The override is removed.
    Clear,
    /// This is written to the override file, and this is said.
    Write { content: S, said: S },
    /// The value is none.
    Refuse,
}

impl View for SetAction<String> {
    type V = SetAction<Seq<char>>;

    open spec fn view(&self) -> SetAction<Seq<char>> {
        match self {
            SetAction::Clear => SetAction::Clear,
            SetAction::Write { content, said } => SetAction::Write {
                content: content@,
                said: said@,
            },
            SetAction::Refuse => SetAction::Refuse,
        }
    }
}

impl SetAction<Seq<char>> {
    /// How the command ends, by whether the file could be changed.
    pub open spec fn ending(self, done: bool) -> i32 {
        match self {
            SetAction::Clear => 0i32,
            SetAction::Write { content, said } => if done {
                0i32
            } else {
                1i32
            },
            SetAction::Refuse => 2i32,
        }
    }
}

impl SetAction<String> {
    /// How the command ends, by whether the file could be changed. That there was nothing
    /// to remove is no failure.
    pub fn code(&self, done: bool) -> (r: i32)
        ensures
            r == self@.ending(done),
    {
        match self {
            SetAction::Clear => 0,
            SetAction::Write { .. } => {
                if done {
                    0
                } else {
                    1
                }
            },
            SetAction::Refuse => 2,
        }
    }
}

pub const SET_CLEARED: &'static str = "override cleared \u{2014} automatic policy";

pub const SET_REFUSED: &'static str = "value must be auto|power-saver|balanced|performance";

/// What `power set` does with a value.
pub open spec fn setting(value: Option<Seq<char>>) -> SetAction<Seq<char>> {
    match value {
        Some(v) => if v == "auto"@ {
            SetAction::Clear
        } else if PowerProfile::of_word(v) is Some {
            SetAction::Write {
                content: v + "\n"@,
                said: "override: "@ + v
                    + " (clears when AC state changes; `hyprstate power set auto` to clear now)"@,
            }
        } else {
            SetAction::Refuse
        },
        None => SetAction::Refuse,
    }
}

/// Decides what `power set` does with a value.
pub fn set_action(value: Option<&str>) -> (r: SetAction<String>)
    ensures
        r@ == setting(text::opt_str(value)),
{
    match value {
        Some(v) => {
            if text::str_eq(v, "auto") {
                return SetAction::Clear;
            }
            match PowerProfile::from_str(v) {
                Ok(_) => SetAction::Write {
                    content: text::concat2(v, "\n"),
                    said: text::concat3(
                        "override: ",
                        v,
                        " (clears when AC state changes; `hyprstate power set auto` to clear now)",
                    ),
                },
                Err(_) => SetAction::Refuse,
            }
        },
        None => SetAction::Refuse,
    }
}

/// The value that follows in the cycle: automatic, power-saver, balanced, performance.
pub open spec fn cycled(current: Option<PowerProfile>) -> Seq<char> {
    match current {
        None => "power-saver"@,
        Some(PowerProfile::PowerSaver) => "balanced"@,
        Some(PowerProfile::Balanced) => "performance"@,
        Some(PowerProfile::Performance) => "auto"@,
    }
}

/// The value that follows in the cycle.
pub fn next_in_cycle(current: Option<PowerProfile>) -> (r: &'static str)
    ensures
        r@ == cycled(current),
{
    match current {
        None => "power-saver",
        Some(PowerProfile::PowerSaver) => "balanced",
        Some(PowerProfile::Balanced) => "performance",
        Some(PowerProfile::Performance) => "auto",
    }
}

/// Decides what `power cycle` does where the override file starts with this word.
pub fn cycle_action(word: Option<&str>) -> (r: SetAction<String>)
    ensures
        r@ == setting(Some(cycled(override_in(text::opt_str(word))))),
{
    set_action(Some(next_in_cycle(override_profile(word))))
}

/// The policy as it is printed.
pub open spec fn policy_text(p: PowerPolicy) -> Seq<char> {
    "{'docked-ac': '"@ + p.docked_ac.word() + "', 'ac': '"@ + p.ac.word() + "', 'battery': '"@
        + p.battery.word() + "', 'battery-low': '"@ + p.battery_low.word() + "'}"@
}

/// The policy as it is printed.
pub fn policy_pydict(p: &PowerPolicy) -> (r: String)
    ensures
        r@ == policy_text(*p),
{
    let mut out = text::concat3("{'docked-ac': '", p.docked_ac.as_str(), "', 'ac': '");
    out.append(p.ac.as_str());
    out.append("', 'battery': '");
    out.append(p.battery.as_str());
    out.append("', 'battery-low': '");
    out.append(p.battery_low.as_str());
    out.append("'}");
    out
}

/// What `power get` says.
pub fn get_line(current: Option<PowerProfile>, policy: &PowerPolicy) -> (r: String)
    ensures
        r@ == (match current {
            Some(p) => "override: "@ + p.word(),
            None => "auto (policy: "@ + policy_text(*policy) + ")"@,
        }),
{
    match current {
        Some(p) => text::concat2("override: ", p.as_str()),
        None => text::concat3("auto (policy: ", policy_pydict(policy).as_str(), ")"),
    }
}

// ------------------------------------------------------------------------ status

/// The icon of a profile; another word stands for itself.
pub open spec fn icon_of(profile: Seq<char>) -> Seq<char> {
    if profile == "power-saver"@ {
        "\u{f0fb6}"@
    } else if profile == "balanced"@ {
        "\u{f0fb5}"@
    } else if profile == "performance"@ {
        "\u{f04c5}"@
    } else {
        profile
    }
}

/// The icon of a profile.
pub fn waybar_icon(profile: &str) -> (r: &str)
    ensures
        r@ == icon_of(profile@),
{
    if text::str_eq(profile, "power-saver") {
        "\u{f0fb6}"
    } else if text::str_eq(profile, "balanced") {
        "\u{f0fb5}"
    } else if text::str_eq(profile, "performance") {
        "\u{f04c5}"
    } else {
        profile
    }
}

/// A module of the status bar as a JSON object.
pub open spec fn bar_object(class: Seq<char>, label: Seq<char>, tooltip: Seq<char>) -> Seq<char> {
    "{\"class\":"@ + json::quoted(class) + ",\"text\":"@ + json::quoted(label) + ",\"tooltip\":"@
        + json::quoted(tooltip) + "}"@
}

fn bar_line(class: &str, label: &str, tooltip: &str) -> (r: String)
    ensures
        r@ == bar_object(class@, label@, tooltip@),
{
    let mut out = text::concat3("{\"class\":", json::quote(class).as_str(), ",\"text\":");
    out.append(json::quote(label).as_str());
    out.append(",\"tooltip\":");
    out.append(json::quote(tooltip).as_str());
    out.append("}");
    out
}

/// `override` or `auto`.
pub open spec fn mode_word(overridden: bool) -> Seq<char> {
    if overridden {
        "override"@
    } else {
        "auto"@
    }
}

/// What the status bar is told. `applied`: the profile that the power service has in
/// force; `None` where the service does not answer.
pub open spec fn bar_of(applied: Option<Seq<char>>, overridden: bool) -> Seq<char> {
    match applied {
        Some(p) => bar_object(
            mode_word(overridden) + " "@ + p,
            icon_of(p),
            "power: "@ + p + " ("@ + mode_word(overridden) + ")"@,
        ),
        None => bar_object("unavailable"@, "\u{26a1}?"@, "powerd unavailable"@),
    }
}

/// What the status bar is told. A service that does not answer is no failure.
pub fn waybar_line(applied: Option<&str>, overridden: bool) -> (r: String)
    ensures
        r@ == bar_of(text::opt_str(applied), overridden),
{
    match applied {
        Some(p) => {
            let mode = if overridden {
                "override"
            } else {
                "auto"
            };
            let class = text::concat3(mode, " ", p);
            let mut tooltip = text::concat3("power: ", p, " (");
            tooltip.append(mode);
            tooltip.append(")");
            bar_line(class.as_str(), waybar_icon(p), tooltip.as_str())
        },
        None => bar_line("unavailable", "\u{26a1}?", "powerd unavailable"),
    }
}

/// The line about the profile in force.
pub fn applied_line(applied: &str, overridden: bool) -> (r: String)
    ensures
        r@ == "applied : "@ + applied@ + " ("@ + mode_word(overridden) + ")"@,
{
    let mut out = text::concat3("applied : ", applied, " (");
    if overridden {
        out.append("override");
    } else {
        out.append("auto");
    }
    out.append(")");
    out
}

/// The line about one setting.
pub open spec fn setting_line(name: Seq<char>, value: Seq<char>) -> Seq<char> {
    "  "@ + text::padded(name, 34) + " "@ + value
}

/// The order of positions by name, and by value where names are equal.
pub open spec fn by_entry(keys: Seq<Seq<char>>, values: Seq<Seq<char>>) -> spec_fn(int, int) -> bool {
    |a: int, b: int|
        text::text_less(keys[a], keys[b]) || (keys[a] == keys[b] && text::text_less(
            values[a],
            values[b],
        ))
}

/// The lines about some settings, in their order.
pub open spec fn setting_lines(keys: Seq<Seq<char>>, values: Seq<Seq<char>>) -> Seq<Seq<char>> {
    let at = order::order(by_entry(keys, values), keys.len() as int);
    Seq::new(keys.len(), |i: int| setting_line(keys[at[i]], values[at[i]]))
}

/// The lines about the settings that the power service reports.
pub fn knob_lines(keys: &Vec<String>, values: &Vec<String>) -> (r: Vec<String>)
    requires
        keys@.len() == values@.len(),
    ensures
        text::strings(r@) == setting_lines(text::strings(keys@), text::strings(values@)),
{
    let ghost names = text::strings(keys@);
    let ghost told = text::strings(values@);
    let f = |a: usize, b: usize| -> (c: bool)
        requires
            a < keys@.len(),
            b < keys@.len(),
            keys@.len() == values@.len(),
        ensures
            c == (text::text_less(keys@[a as int]@, keys@[b as int]@) || (keys@[a as int]@
                == keys@[b as int]@ && text::text_less(values@[a as int]@, values@[b as int]@))),
        {
            text::less(keys[a].as_str(), keys[b].as_str()) || (text::str_eq(
                keys[a].as_str(),
                keys[b].as_str(),
            ) && text::less(values[a].as_str(), values[b].as_str()))
        };
    let at = order::sort_positions(keys.len(), f, Ghost(by_entry(names, told)));
    let ghost want = setting_lines(names, told);
    let mut out: Vec<String> = Vec::new();
    let mut i: usize = 0;
    while i < at.len()
        invariant
            i <= at@.len(),
            at@.len() == keys@.len(),
            keys@.len() == values@.len(),
            names == text::strings(keys@),
            told == text::strings(values@),
            want == setting_lines(names, told),
            order::positions(at@) == order::order(by_entry(names, told), keys@.len() as int),
            forall|k: int| 0 <= k < at@.len() ==> (#[trigger] at@[k]) < keys@.len(),
            out@.len() == i,
            forall|k: int| 0 <= k < i ==> (#[trigger] out@[k])@ == want[k],
        decreases at@.len() - i,
    {
        let k = at[i];
        assert(order::positions(at@)[i as int] == k as int);
        let mut line = text::concat3("  ", text::pad(keys[k].as_str(), 34).as_str(), " ");
        line.append(values[k].as_str());
        out.push(line);
        i += 1;
    }
    assert(text::strings(out@) =~= want);
    out
}

/// What plain status says where the power service does not answer.
pub fn unavailable_lines(error: &str, current: Option<PowerProfile>) -> (r: Vec<String>)
    ensures
        text::strings(r@) == seq!["powerd : unavailable ("@ + error@ + ")"@] + (match current {
            Some(p) => seq!["override: "@ + p.word()],
            None => seq![],
        }),
{
    let mut out: Vec<String> = Vec::new();
    out.push(text::concat3("powerd : unavailable (", error, ")"));
    match current {
        Some(p) => {
            out.push(text::concat2("override: ", p.as_str()));
        },
        None => {},
    }
    assert(text::strings(out@) =~= seq!["powerd : unavailable ("@ + error@ + ")"@] + (match current {
        Some(p) => seq!["override: "@ + p.word()],
        None => seq![],
    }));
    out
}

// ------------------------------------------------------------------------- laws

/// What the override file holds after `power set` where it can be changed, and how the
/// command ends.
pub open spec fn after_set(file: Option<Seq<char>>, value: Option<Seq<char>>) -> (
    Option<Seq<char>>,
    i32,
) {
    let action = setting(value);
    (
        match action {
            SetAction::Clear => None,
            SetAction::Write { content, said } => Some(content),
            SetAction::Refuse => file,
        },
        action.ending(true),
    )
}

/// The override that stands in a file.
pub open spec fn standing_override(file: Option<Seq<char>>) -> Option<PowerProfile> {
    override_in(sysfs::first_word_in(file))
}

/// The override file after `power cycle` where it can be changed, and how the command
/// ends.
pub open spec fn after_cycle(file: Option<Seq<char>>) -> (Option<Seq<char>>, i32) {
    after_set(file, Some(cycled(standing_override(file))))
}

/// A profile that is set is the override that is read back, and setting `auto` leaves
/// none.
pub proof fn settings_are_read_back(file: Option<Seq<char>>, p: PowerProfile)
    ensures
        after_set(file, Some(p.word())).1 == 0,
        sysfs::first_word_in(after_set(file, Some(p.word())).0) == Some(p.word()),
        standing_override(after_set(file, Some(p.word())).0) == Some(p),
        after_set(file, Some("auto"@)) == (None::<Seq<char>>, 0i32),
{
    reveal_strlit("auto");
    reveal_strlit("power-saver");
    reveal_strlit("balanced");
    reveal_strlit("performance");
    reveal_strlit("\n");
    crate::power::profile_words_roundtrip(p);
    text::a_word_is_found(p.word(), "\n"@);
    assert("auto"@.len() != p.word().len());
}

/// Where no override stands, going on in the cycle four times sets power-saver, balanced
/// and performance in turn, and then removes the override. Each time the command ends
/// with 0.
pub proof fn four_cycles_go_round(file: Option<Seq<char>>)
    requires
        standing_override(file) is None,
    ensures
        ({
            let (one, a) = after_cycle(file);
            let (two, b) = after_cycle(one);
            let (three, c) = after_cycle(two);
            let (four, d) = after_cycle(three);
            &&& sysfs::first_word_in(one) == Some("power-saver"@)
            &&& sysfs::first_word_in(two) == Some("balanced"@)
            &&& sysfs::first_word_in(three) == Some("performance"@)
            &&& four is None
            &&& a == 0 && b == 0 && c == 0 && d == 0
        }),
{
    let one = after_cycle(file).0;
    let two = after_cycle(one).0;
    let three = after_cycle(two).0;
    settings_are_read_back(file, PowerProfile::PowerSaver);
    settings_are_read_back(one, PowerProfile::Balanced);
    settings_are_read_back(two, PowerProfile::Performance);
    settings_are_read_back(three, PowerProfile::Performance);
}

/// From every override, four steps of the cycle lead back to it.
pub proof fn the_cycle_closes(file: Option<Seq<char>>)
    ensures
        standing_override(after_cycle(after_cycle(after_cycle(after_cycle(file).0).0).0).0)
            == standing_override(file),
{
    let one = after_cycle(file).0;
    let two = after_cycle(one).0;
    let three = after_cycle(two).0;
    settings_are_read_back(file, PowerProfile::PowerSaver);
    settings_are_read_back(file, PowerProfile::Balanced);
    settings_are_read_back(file, PowerProfile::Performance);
    settings_are_read_back(one, PowerProfile::PowerSaver);
    settings_are_read_back(one, PowerProfile::Balanced);
    settings_are_read_back(one, PowerProfile::Performance);
    settings_are_read_back(two, PowerProfile::PowerSaver);
    settings_are_read_back(two, PowerProfile::Balanced);
    settings_are_read_back(two, PowerProfile::Performance);
    settings_are_read_back(three, PowerProfile::PowerSaver);
    settings_are_read_back(three, PowerProfile::Balanced);
    settings_are_read_back(three, PowerProfile::Performance);
}

} // verus!
