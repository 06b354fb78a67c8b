//! What the leading block of a profile makes of it.
use vstd::prelude::*;

use crate::laws::directives;
use crate::number;
use crate::profiles;
use crate::profiles::{DraftView, EdpPolicy, GpuPref};
use crate::text;

verus! {

proof fn lemma_profile_keys()
    ensures
        profiles::is_key("match"@, false),
        profiles::is_key("hook"@, false),
        profiles::is_key("edp"@, false),
        profiles::is_key("gpu"@, false),
        profiles::is_key("priority"@, false),
        "match"@ != "hook"@ && "match"@ != "edp"@ && "match"@ != "gpu"@ && "match"@ != "priority"@,
        "hook"@ != "edp"@ && "hook"@ != "gpu"@ && "hook"@ != "priority"@,
        "edp"@ != "gpu"@ && "edp"@ != "priority"@ && "gpu"@ != "priority"@,
{
    reveal_strlit("match");
    reveal_strlit("hook");
    reveal_strlit("edp");
    reveal_strlit("gpu");
    reveal_strlit("priority");
    assert("edp"@[0] != "gpu"@[0]);
}

/// A directive is taken in before the rest is looked at; one that is wrong ends the
/// profile.
pub proof fn directives_are_taken_in_turn(
    d: DraftView,
    key: Seq<char>,
    val: Seq<char>,
    rest: Seq<Seq<char>>,
)
    requires
        profiles::is_key(key, false),
        directives::is_value(val),
    ensures
        profiles::scanned(d, seq![directives::directive(key, val)] + rest) == (
        match profiles::directed(d, key, val) {
            Ok(n) => profiles::scanned(n, rest),
            Err(e) => Err(e),
        }),
{
    directives::directives_are_read_back(key, val, false);
    let all = seq![directives::directive(key, val)] + rest;
    assert(all[0] == directives::directive(key, val));
    assert(all.skip(1) =~= rest);
}

/// What each directive sets: a monitor that has to be there, a hook, both in the order in
/// which they were written; and nothing else of the profile.
pub proof fn matches_and_hooks_are_gathered(
    d: DraftView,
    val: Seq<char>,
    rest: Seq<Seq<char>>,
)
    requires
        directives::is_value(val),
    ensures
        profiles::scanned(d, seq![directives::directive("match"@, val)] + rest)
            == profiles::scanned(DraftView { matches: d.matches.push(val), ..d }, rest),
        profiles::scanned(d, seq![directives::directive("hook"@, val)] + rest)
            == profiles::scanned(DraftView { hooks: d.hooks.push(val), ..d }, rest),
{
    lemma_profile_keys();
    directives_are_taken_in_turn(d, "match"@, val, rest);
    directives_are_taken_in_turn(d, "hook"@, val, rest);
}

/// The panel's policy and the GPU preference are set by their words.
pub proof fn policies_are_set_by_their_words(d: DraftView, rest: Seq<Seq<char>>)
    ensures
        profiles::scanned(d, seq![directives::directive("edp"@, "enable"@)] + rest)
            == profiles::scanned(DraftView { edp: EdpPolicy::Enable, ..d }, rest),
        profiles::scanned(d, seq![directives::directive("edp"@, "disable"@)] + rest)
            == profiles::scanned(DraftView { edp: EdpPolicy::Disable, ..d }, rest),
        profiles::scanned(d, seq![directives::directive("edp"@, "auto"@)] + rest)
            == profiles::scanned(DraftView { edp: EdpPolicy::Auto, ..d }, rest),
        profiles::scanned(d, seq![directives::directive("gpu"@, "igpu"@)] + rest)
            == profiles::scanned(DraftView { gpu: GpuPref::Igpu, ..d }, rest),
        profiles::scanned(d, seq![directives::directive("gpu"@, "dgpu"@)] + rest)
            == profiles::scanned(DraftView { gpu: GpuPref::Dgpu, ..d }, rest),
        profiles::scanned(d, seq![directives::directive("gpu"@, "auto"@)] + rest)
            == profiles::scanned(DraftView { gpu: GpuPref::Auto, ..d }, rest),
{
    lemma_profile_keys();
    reveal_strlit("auto");
    reveal_strlit("enable");
    reveal_strlit("disable");
    reveal_strlit("igpu");
    reveal_strlit("dgpu");
    assert("auto"@[0] != "enable"@[0]);
    assert("auto"@[0] != "disable"@[0]);
    assert("enable"@[0] != "disable"@[0]);
    assert("auto"@[0] != "igpu"@[0]);
    assert("auto"@[0] != "dgpu"@[0]);
    assert("igpu"@[0] != "dgpu"@[0]);
    directives_are_taken_in_turn(d, "edp"@, "enable"@, rest);
    directives_are_taken_in_turn(d, "edp"@, "disable"@, rest);
    directives_are_taken_in_turn(d, "edp"@, "auto"@, rest);
    directives_are_taken_in_turn(d, "gpu"@, "igpu"@, rest);
    directives_are_taken_in_turn(d, "gpu"@, "dgpu"@, rest);
    directives_are_taken_in_turn(d, "gpu"@, "auto"@, rest);
}

/// A priority is the number that was written.
pub proof fn priorities_are_numbers(d: DraftView, n: i64, rest: Seq<Seq<char>>)
    ensures
        profiles::scanned(
            d,
            seq![directives::directive("priority"@, number::signed_decimal(n as int))] + rest,
        ) == profiles::scanned(DraftView { priority: Some(n as int), ..d }, rest),
{
    lemma_profile_keys();
    let val = number::signed_decimal(n as int);
    let abs = (if n < 0 {
        -n
    } else {
        n as int
    }) as nat;
    let body = number::decimal(abs);
    number::lemma_decimal_digits(abs);
    number::lemma_decimal_roundtrip(n as int);
    assert(number::is_digit(body[0]));
    assert(number::is_digit(body.last()));
    assert forall|i: int| 0 <= i < val.len() implies val[i] == '-' || number::is_digit(val[i]) by {
        if n < 0 && i > 0 {
            assert(val[i] == body[i - 1]);
        }
    }
    assert(!val.contains('\n'));
    assert(val.last() == body.last());
    directives_are_taken_in_turn(d, "priority"@, val, rest);
}

/// A wrong word for the panel, for the GPU or for the priority ends the profile.
pub proof fn wrong_words_end_the_profile(d: DraftView, val: Seq<char>, rest: Seq<Seq<char>>)
    requires
        directives::is_value(val),
        val != "auto"@,
    ensures
        val != "enable"@ && val != "disable"@ ==> profiles::scanned(
            d,
            seq![directives::directive("edp"@, val)] + rest,
        ) is Err,
        val != "igpu"@ && val != "dgpu"@ ==> profiles::scanned(
            d,
            seq![directives::directive("gpu"@, val)] + rest,
        ) is Err,
        number::integer_of(val) is None ==> profiles::scanned(
            d,
            seq![directives::directive("priority"@, val)] + rest,
        ) is Err,
{
    lemma_profile_keys();
    directives_are_taken_in_turn(d, "edp"@, val, rest);
    directives_are_taken_in_turn(d, "gpu"@, val, rest);
    directives_are_taken_in_turn(d, "priority"@, val, rest);
}

/// A directive that nobody knows is warned about, and the profile goes on as if it were
/// not there.
pub proof fn unknown_directives_are_warned_about(
    d: DraftView,
    key: Seq<char>,
    val: Seq<char>,
    rest: Seq<Seq<char>>,
)
    requires
        profiles::is_key(key, false),
        directives::is_value(val),
        key != "match"@ && key != "hook"@ && key != "edp"@ && key != "gpu"@ && key != "priority"@,
    ensures
        exists|w: Seq<char>|
            profiles::scanned(d, seq![directives::directive(key, val)] + rest)
                == #[trigger] profiles::scanned(
                DraftView { warnings: d.warnings.push(w), ..d },
                rest,
            ),
{
    directives_are_taken_in_turn(d, key, val, rest);
    let w = "unknown directive "@ + text::debug_of(key);
    assert(profiles::warned(d, w) == DraftView { warnings: d.warnings.push(w), ..d });
}

/// A plain comment and an empty line are passed over.
pub proof fn comments_are_passed_over(d: DraftView, said: Seq<char>, rest: Seq<Seq<char>>)
    requires
        said.len() == 0 || said[0] != '@',
    ensures
        profiles::scanned(d, seq!["#"@ + said] + rest) == profiles::scanned(d, rest),
        profiles::scanned(d, seq![Seq::<char>::empty()] + rest) == profiles::scanned(d, rest),
{
    reveal_strlit("#");
    reveal_strlit("#@");
    let line = "#"@ + said;
    assert(!text::has_prefix(line, "#@"@)) by {
        if text::has_prefix(line, "#@"@) {
            assert(line.take(2)[1] == '@');
            assert(line[1] == said[0]);
        }
    }
    text::lemma_lead(line, 0);
    assert(text::trimmed_start(line) =~= line);
    assert(line.take(1) =~= "#"@);
    let all = seq![line] + rest;
    assert(all[0] == line && all.skip(1) =~= rest);
    let none = Seq::<char>::empty();
    text::lemma_lead(none, 0);
    assert(text::trimmed_start(none) =~= none);
    assert(text::trimmed_end(none).len() == 0);
    let blank = seq![none] + rest;
    assert(blank[0] == none && blank.skip(1) =~= rest);
}

/// An indented comment and a line of white space are passed over. The first line that says
/// anything else ends the directives, whatever comes after it.
pub proof fn the_body_ends_the_directives(
    d: DraftView,
    blank: Seq<char>,
    said: Seq<char>,
    rest: Seq<Seq<char>>,
)
    requires
        forall|i: int| 0 <= i < blank.len() ==> text::is_white(#[trigger] blank[i]),
    ensures
        blank.len() > 0 ==> profiles::scanned(d, seq![blank + "#"@ + said] + rest)
            == profiles::scanned(d, rest),
        profiles::scanned(d, seq![blank] + rest) == profiles::scanned(d, rest),
        said.len() > 0 && said[0] != '#' && !text::is_white(said[0]) ==> profiles::scanned(
            d,
            seq![blank + said] + rest,
        ) == Ok::<DraftView, Seq<char>>(d),
{
    reveal_strlit("#");
    reveal_strlit("#@");
    let n = blank.len() as int;
    let note = blank + "#"@ + said;
    assert(note[n] == '#');
    assert forall|i: int| 0 <= i < n implies text::is_white(note[i]) by {
        assert(note[i] == blank[i]);
    }
    text::lemma_lead(note, n);
    assert(text::trimmed_start(note) =~= "#"@ + said);
    assert(text::trimmed_start(note).take(1) =~= "#"@);
    if n > 0 {
        assert(note[0] == blank[0]);
        lemma_directive_mark(note);
        let all = seq![note] + rest;
        assert(all[0] == note && all.skip(1) =~= rest);
    }
    text::lemma_lead(blank, n);
    assert(text::trimmed_start(blank).len() == 0);
    assert(text::trimmed(blank).len() == 0);
    lemma_directive_mark(blank);
    let empty = seq![blank] + rest;
    assert(empty[0] == blank && empty.skip(1) =~= rest);
    if said.len() > 0 && said[0] != '#' && !text::is_white(said[0]) {
        let line = blank + said;
        assert forall|i: int| 0 <= i < n implies text::is_white(line[i]) by {
            assert(line[i] == blank[i]);
        }
        assert(line[n] == said[0]);
        text::lemma_lead(line, n);
        let tail = text::trimmed_start(line);
        assert(tail =~= said);
        lemma_directive_mark(line);
        if text::has_prefix(tail, "#"@) {
            assert(tail.take(1)[0] == said[0]);
        }
        lemma_kept(tail);
        assert(text::trimmed(line).len() > 0);
        let all = seq![line] + rest;
        assert(all[0] == line);
    }
}

/// A line that starts with anything but the mark is no directive.
proof fn lemma_directive_mark(line: Seq<char>)
    requires
        line.len() == 0 || line[0] != '#',
    ensures
        !text::has_prefix(line, "#@"@),
{
    reveal_strlit("#@");
    if text::has_prefix(line, "#@"@) {
        assert(line.take(2)[0] == '#');
    }
}

/// A text that does not start with white space keeps its start.
proof fn lemma_kept(s: Seq<char>)
    requires
        s.len() > 0,
        !text::is_white(s[0]),
    ensures
        text::trail(s) < s.len(),
    decreases s.len(),
{
    if text::is_white(s.last()) {
        assert(s.drop_last()[0] == s[0]);
        lemma_kept(s.drop_last());
    }
}

/// A profile has its own name and what its directives say; its priority, where none is
/// given, is the number of monitors that it asks for. Without a monitor it is no profile.
pub proof fn profiles_hold_what_was_written(
    name: Seq<char>,
    body: Seq<char>,
    first: Seq<char>,
    second: Seq<char>,
    n: i64,
)
    requires
        directives::is_value(first),
        directives::is_value(second),
    ensures
        text::lines_of(body) == seq![directives::directive("match"@, first)] ==> {
            let p = profiles::parsed(name, body);
            &&& p is Ok
            &&& p->Ok_0.0.name == name
            &&& p->Ok_0.0.matches == seq![first]
            &&& p->Ok_0.0.hooks.len() == 0
            &&& p->Ok_0.0.edp == EdpPolicy::Auto
            &&& p->Ok_0.0.gpu == GpuPref::Auto
            &&& p->Ok_0.0.priority == 1
            &&& p->Ok_0.1.len() == 0
        },
        text::lines_of(body) == seq![
            directives::directive("match"@, first),
            directives::directive("match"@, second),
        ] ==> {
            let p = profiles::parsed(name, body);
            &&& p is Ok
            &&& p->Ok_0.0.matches == seq![first, second]
            &&& p->Ok_0.0.priority == 2
        },
        text::lines_of(body) == seq![
            directives::directive("priority"@, number::signed_decimal(n as int)),
            directives::directive("match"@, first),
        ] ==> {
            let p = profiles::parsed(name, body);
            &&& p is Ok
            &&& p->Ok_0.0.matches == seq![first]
            &&& p->Ok_0.0.priority == n
        },
        text::lines_of(body) == seq![
            directives::directive("match"@, first),
            directives::directive("hook"@, second),
        ] ==> {
            let p = profiles::parsed(name, body);
            &&& p is Ok
            &&& p->Ok_0.0.matches == seq![first]
            &&& p->Ok_0.0.hooks == seq![second]
        },
        text::lines_of(body) == seq![directives::directive("hook"@, first)] ==> profiles::parsed(
            name,
            body,
        ) is Err,
        body.len() == 0 ==> profiles::parsed(name, body) is Err,
{
    let blank = profiles::blank_draft();
    let none = Seq::<Seq<char>>::empty();
    let one = DraftView { matches: seq![first], ..blank };
    let two = DraftView { matches: seq![first, second], ..blank };
    let hooked = DraftView { hooks: seq![second], ..one };
    let m1 = directives::directive("match"@, first);
    let m2 = directives::directive("match"@, second);
    let h1 = directives::directive("hook"@, first);
    let h2 = directives::directive("hook"@, second);
    let pr = directives::directive("priority"@, number::signed_decimal(n as int));
    assert(blank.matches.push(first) =~= seq![first]);
    assert(one.matches.push(second) =~= seq![first, second]);
    assert(one.hooks.push(second) =~= seq![second]);
    matches_and_hooks_are_gathered(blank, first, none);
    matches_and_hooks_are_gathered(blank, first, seq![m2]);
    matches_and_hooks_are_gathered(blank, first, seq![h2]);
    matches_and_hooks_are_gathered(one, second, none);
    assert(seq![m1] + none =~= seq![m1]);
    assert(seq![m2] + none =~= seq![m2]);
    assert(seq![h1] + none =~= seq![h1]);
    assert(seq![h2] + none =~= seq![h2]);
    assert(seq![m1] + seq![m2] =~= seq![m1, m2]);
    assert(seq![m1] + seq![h2] =~= seq![m1, h2]);
    assert(seq![pr] + seq![m1] =~= seq![pr, m1]);
    let ranked = DraftView { priority: Some(n as int), ..blank };
    priorities_are_numbers(blank, n, seq![m1]);
    matches_and_hooks_are_gathered(ranked, first, none);
    assert(ranked.matches.push(first) =~= seq![first]);
    assert(profiles::scanned(one, none) == Ok::<DraftView, Seq<char>>(one));
    assert(profiles::scanned(two, none) == Ok::<DraftView, Seq<char>>(two));
    assert(profiles::scanned(hooked, none) == Ok::<DraftView, Seq<char>>(hooked));
    if body.len() == 0 {
        assert(text::lines_of(body) =~= none);
    }
}

} // verus!
