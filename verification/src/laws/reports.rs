//! What is reported, kept and told to observers.
use vstd::prelude::*;

use crate::ctx::CtxView;
use crate::fsm::State;
use crate::gpu;
use crate::gpu::CardView;
use crate::json;
use crate::knobs;
use crate::knobs::{CardReadingView, PolicyView};
use crate::laws::policy;
use crate::laws::texts;
use crate::number;
use crate::order;
use crate::power::PowerProfile;
use crate::tasks::{Cause, Fired, Note, NoteKind};
use crate::telemetry;
use crate::telemetry::{Delivery, FrameCtxView, FrameView, TelemetryEmitter};
use crate::text;

verus! {

// ------------------------------------------------------------------------ row statuses

/// The status of a row of several knobs: the first error, whatever else happened; without
/// one, that something was written; without that, that nothing had to be; and else what
/// the first knob says. A row without knobs is missing.
pub proof fn rows_tell_the_worst(
    before: Seq<Seq<char>>,
    s: Seq<char>,
    after: Seq<Seq<char>>,
)
    requires
        forall|i: int|
            0 <= i < before.len() ==> !text::has_prefix(#[trigger] before[i], "error"@),
    ensures
        text::has_prefix(s, "error"@) ==> knobs::merged(before + seq![s] + after) == s,
        s == "written"@ && (forall|i: int|
            0 <= i < after.len() ==> !text::has_prefix(#[trigger] after[i], "error"@))
            ==> knobs::merged(before + seq![s] + after) == "written"@,
        (forall|i: int| 0 <= i < before.len() ==> #[trigger] before[i] == "unchanged"@)
            && before.len() > 0 ==> knobs::merged(before) == "unchanged"@,
        knobs::merged(Seq::empty()) == "skipped-missing"@,
{
    reveal_strlit("error");
    reveal_strlit("written");
    reveal_strlit("unchanged");
    let all = before + seq![s] + after;
    assert(all[before.len() as int] == s);
    assert forall|i: int| 0 <= i < before.len() implies !text::has_prefix(
        #[trigger] all[i],
        "error"@,
    ) by {
        assert(all[i] == before[i]);
    }
    if text::has_prefix(s, "error"@) {
        lemma_first_error(all, before.len() as int);
    }
    if s == "written"@ && (forall|i: int|
        0 <= i < after.len() ==> !text::has_prefix(#[trigger] after[i], "error"@)) {
        assert(!text::has_prefix(s, "error"@)) by {
            if text::has_prefix(s, "error"@) {
                assert(s.take(5)[0] == s[0]);
            }
        }
        assert forall|i: int| 0 <= i < all.len() implies !text::has_prefix(
            #[trigger] all[i],
            "error"@,
        ) by {
            if i > before.len() {
                assert(all[i] == after[i - before.len() - 1]);
            }
        }
        lemma_no_error(all);
        assert(all.contains("written"@));
    }
    if (forall|i: int| 0 <= i < before.len() ==> #[trigger] before[i] == "unchanged"@)
        && before.len() > 0 {
        lemma_no_error(before);
        assert("unchanged"@[0] != "written"@[0]);
        if before.contains("written"@) {
            let k = choose|k: int| 0 <= k < before.len() && before[k] == "written"@;
            assert(before[k] == "unchanged"@);
        }
    }
}

proof fn lemma_first_error(s: Seq<Seq<char>>, k: int)
    requires
        0 <= k < s.len(),
        text::has_prefix(s[k], "error"@),
        forall|i: int| 0 <= i < k ==> !text::has_prefix(#[trigger] s[i], "error"@),
    ensures
        knobs::first_error(s) == Some(s[k]),
    decreases k,
{
    if k > 0 {
        let rest = s.skip(1);
        assert forall|i: int| 0 <= i < k - 1 implies !text::has_prefix(
            #[trigger] rest[i],
            "error"@,
        ) by {
            assert(rest[i] == s[i + 1]);
        }
        assert(!text::has_prefix(s[0], "error"@));
        lemma_first_error(rest, k - 1);
    }
}

proof fn lemma_no_error(s: Seq<Seq<char>>)
    requires
        forall|i: int| 0 <= i < s.len() ==> !text::has_prefix(#[trigger] s[i], "error"@),
    ensures
        knobs::first_error(s) is None,
    decreases s.len(),
{
    if s.len() > 0 {
        let rest = s.skip(1);
        assert forall|i: int| 0 <= i < rest.len() implies !text::has_prefix(
            #[trigger] rest[i],
            "error"@,
        ) by {
            assert(rest[i] == s[i + 1]);
        }
        assert(!text::has_prefix(s[0], "error"@));
        lemma_no_error(rest);
    }
}

// ------------------------------------------------------------------------ link policies

/// The option in brackets is the selected one, and each option counts without its
/// brackets.
pub proof fn the_bracketed_option_is_selected(
    word: Seq<char>,
    before: Seq<Seq<char>>,
    after: Seq<Seq<char>>,
)
    requires
        word.len() > 0,
        word[0] != '[' && word[0] != ']',
        word.last() != '[' && word.last() != ']',
        forall|i: int| 0 <= i < before.len() ==> !text::has_prefix(#[trigger] before[i], "["@),
    ensures
        ({
            let shown = seq!['['] + word + seq![']'];
            &&& knobs::unbracketed(shown) == word
            &&& knobs::unbracketed(word) == word
            &&& knobs::selected(before + seq![shown] + after) == Some(word)
            &&& knobs::selected(before) is None
            &&& knobs::is_option(before + seq![shown] + after, word)
            &&& knobs::is_option(before + seq![word] + after, word)
            &&& !knobs::is_option(seq![shown], word + word)
        }),
{
    reveal_strlit("[");
    let shown = seq!['['] + word + seq![']'];
    let open = word + seq![']'];
    assert(shown.skip(1) =~= open);
    assert(open[0] == word[0]);
    assert(open.last() == ']');
    assert(open.drop_last() =~= word);
    assert(knobs::unbracketed(word) == word);
    assert(knobs::unbracketed(open) == word);
    assert(shown.take(1) =~= "["@);
    let all = before + seq![shown] + after;
    let n = before.len() as int;
    assert(all[n] == shown);
    assert forall|i: int| 0 <= i < n implies !text::has_prefix(#[trigger] all[i], "["@) by {
        assert(all[i] == before[i]);
    }
    lemma_selected(all, n);
    lemma_none_selected(before);
    assert((before + seq![word] + after)[n] == word);
    let one = seq![shown];
    if knobs::is_option(one, word + word) {
        assert(one[0] == shown);
        assert((word + word).len() > word.len());
    }
}

proof fn lemma_selected(words: Seq<Seq<char>>, k: int)
    requires
        0 <= k < words.len(),
        text::has_prefix(words[k], "["@),
        forall|i: int| 0 <= i < k ==> !text::has_prefix(#[trigger] words[i], "["@),
    ensures
        knobs::selected(words) == Some(knobs::unbracketed(words[k])),
    decreases k,
{
    if k > 0 {
        let rest = words.skip(1);
        assert forall|i: int| 0 <= i < k - 1 implies !text::has_prefix(#[trigger] rest[i], "["@) by {
            assert(rest[i] == words[i + 1]);
        }
        assert(!text::has_prefix(words[0], "["@));
        lemma_selected(rest, k - 1);
    }
}

proof fn lemma_none_selected(words: Seq<Seq<char>>)
    requires
        forall|i: int| 0 <= i < words.len() ==> !text::has_prefix(#[trigger] words[i], "["@),
    ensures
        knobs::selected(words) is None,
    decreases words.len(),
{
    if words.len() > 0 {
        let rest = words.skip(1);
        assert forall|i: int| 0 <= i < rest.len() implies !text::has_prefix(
            #[trigger] rest[i],
            "["@,
        ) by {
            assert(rest[i] == words[i + 1]);
        }
        assert(!text::has_prefix(words[0], "["@));
        lemma_none_selected(rest);
    }
}

// ------------------------------------------------------------------- frequency policies

/// A policy is the word with a number behind it.
pub proof fn policies_are_numbered(n: nat, other: Seq<char>)
    requires
        other.len() == 0 || !number::is_digit(other[0]),
    ensures
        knobs::is_policy("policy"@ + number::decimal(n)),
        !knobs::is_policy("policy"@ + other),
        !knobs::is_policy(number::decimal(n)),
{
    reveal_strlit("policy");
    let d = number::decimal(n);
    number::lemma_decimal_digits(n);
    let name = "policy"@ + d;
    assert(name.take(6) =~= "policy"@);
    assert(name.skip(6) =~= d);
    let wrong = "policy"@ + other;
    assert(wrong.skip(6) =~= other);
    if other.len() > 0 {
        assert(wrong.skip(6)[0] == other[0]);
    }
    assert(!text::has_prefix(d, "policy"@)) by {
        if text::has_prefix(d, "policy"@) {
            assert(d.take(6)[0] == d[0]);
            assert(number::is_digit(d[0]));
        }
    }
}

/// Every policy of a directory is among those that are set, and nothing else is.
pub proof fn every_policy_is_set(entries: Seq<PolicyView>, e: PolicyView)
    ensures
        knobs::policies_of(entries).contains(e) <==> entries.contains(e) && knobs::is_policy(
            e.name,
        ),
{
    broadcast use vstd::seq_lib::group_to_multiset_ensures;

    let n = entries.len() as int;
    let before = knobs::by_name(entries);
    let at = order::order(before, n);
    let sorted = Seq::new(entries.len(), |i: int| entries[at[i]]);
    order::order_is_complete(before, n);
    let ids = Seq::new(n as nat, |i: int| i);
    lemma_only_policies(sorted, e);
    if entries.contains(e) {
        let k = choose|k: int| 0 <= k < entries.len() && entries[k] == e;
        assert(ids[k] == k);
        assert(ids.contains(k));
        assert(ids.to_multiset().count(k) > 0);
        assert(at.to_multiset().count(k) > 0);
        assert(at.contains(k));
        let m = choose|m: int| 0 <= m < at.len() && at[m] == k;
        assert(sorted[m] == e);
    }
    if sorted.contains(e) {
        let m = choose|m: int| 0 <= m < sorted.len() && sorted[m] == e;
        assert(0 <= at[m] < n);
        assert(entries[at[m]] == e);
    }
}

proof fn lemma_only_policies(s: Seq<PolicyView>, e: PolicyView)
    ensures
        knobs::only_policies(s).contains(e) <==> s.contains(e) && knobs::is_policy(e.name),
    decreases s.len(),
{
    if s.len() > 0 {
        let init = s.drop_last();
        let last = s.last();
        let rest = knobs::only_policies(init);
        lemma_only_policies(init, e);
        if s.contains(e) {
            let k = choose|k: int| 0 <= k < s.len() && s[k] == e;
            if k < init.len() {
                assert(init[k] == e);
            }
        }
        if init.contains(e) {
            let k = choose|k: int| 0 <= k < init.len() && init[k] == e;
            assert(s[k] == e);
        }
        assert(s[s.len() - 1] == last);
        if rest.contains(e) {
            let k = choose|k: int| 0 <= k < rest.len() && rest[k] == e;
            assert(rest.push(last)[k] == e);
        }
        assert(rest.push(last)[rest.len() as int] == last);
        if rest.push(last).contains(e) {
            let k = choose|k: int| 0 <= k < rest.push(last).len() && rest.push(last)[k] == e;
            if k < rest.len() {
                assert(rest[k] == e);
            }
        }
    }
}

// ---------------------------------------------------------------------- what is kept

/// The profile whose name is kept is the one to start with; anything else, and nothing,
/// means balanced, and is warned about.
pub proof fn kept_names_are_profiles(p: PowerProfile, other: Seq<char>)
    requires
        other.len() > 0,
        forall|i: int| 0 <= i < other.len() ==> !text::is_white(#[trigger] other[i]),
        other != "power-saver"@,
        other != "balanced"@,
        other != "performance"@,
    ensures
        knobs::kept_text(p) == p.word() + "\n"@,
        knobs::kept_profile(Some(p.word() + "\n"@)) == p,
        knobs::kept_profile(Some(other)) == PowerProfile::Balanced,
        knobs::kept_warning(Some(other)) is Some,
        knobs::kept_profile(None) == PowerProfile::Balanced,
        knobs::kept_warning(None) is Some,
{
    knobs::kept_profiles_are_found_again(p);
    let none = Seq::<char>::empty();
    texts::words_stand_between_blanks(none, other, none);
    assert(none + other + none =~= other);
}

/// A card is kept awake where that was kept; a file that says anything else, or that is not
/// there, lets it sleep.
pub proof fn kept_pins_are_words(other: Seq<char>)
    requires
        other.len() > 0,
        forall|i: int| 0 <= i < other.len() ==> !text::is_white(#[trigger] other[i]),
        other != "on"@,
    ensures
        knobs::pin_word(true) == "on"@,
        knobs::pin_word(false) == "auto"@,
        knobs::kept_pin(true) == "on"@ + "\n"@,
        knobs::kept_pin(false) == "auto"@ + "\n"@,
        knobs::pin_of(Some("on"@ + "\n"@)),
        !knobs::pin_of(Some(other)),
        !knobs::pin_of(None),
{
    knobs::kept_pins_are_found_again(true);
    let none = Seq::<char>::empty();
    texts::words_stand_between_blanks(none, other, none);
    assert(none + other + none =~= other);
}

// ------------------------------------------------------------------------- reporting

/// A file that was readable is reported under its label, trimmed; one that was not is left
/// out.
pub proof fn readable_files_are_reported(
    files: Seq<(Seq<char>, Option<Seq<char>>)>,
    label: Seq<char>,
    content: Seq<char>,
)
    ensures
        knobs::file_entries(files.push((label, Some(content)))) == knobs::file_entries(files).push(
            (label, text::trimmed(content)),
        ),
        knobs::file_entries(files.push((label, None))) == knobs::file_entries(files),
        knobs::file_entries(Seq::empty()).len() == 0,
{
    assert(files.push((label, Some(content))).drop_last() =~= files);
    assert(files.push((label, None)).drop_last() =~= files);
}

/// A card that is suspended is reported as that, and its knob is not opened; one that is
/// awake is reported by its level; and each by its runtime setting, under its address.
pub proof fn cards_are_reported(cards: Seq<CardReadingView>, c: CardReadingView)
    requires
        c.control is None,
    ensures
        ({
            let key = gpu::key_of(c.path);
            let rest = knobs::card_entries(cards);
            let all = knobs::card_entries(cards.push(c));
            let asleep = c.status is Some && text::trimmed(c.status->0) == "suspended"@;
            &&& asleep ==> all == rest.push(("dpm:"@ + key, "(runtime-suspended)"@))
            &&& c.status is Some && !asleep && c.level is Some ==> all == rest.push(
                ("dpm:"@ + key, text::trimmed(c.level->0)),
            )
            &&& c.status is Some && !asleep && c.level is None ==> all == rest
            &&& c.status is None ==> all == rest
        }),
        ({
            let set = CardReadingView { control: Some("auto"@), ..c };
            knobs::card_entries(cards.push(set)) == knobs::card_entries(cards.push(c)).push(
                ("runtime_pm:"@ + gpu::key_of(c.path), text::trimmed("auto"@)),
            )
        }),
{
    let set = CardReadingView { control: Some("auto"@), ..c };
    assert(cards.push(c).drop_last() =~= cards);
    assert(cards.push(set).drop_last() =~= cards);
}

/// A card is known by its address, which is the last part of its path without its ending,
/// and reached by its own node.
pub proof fn cards_are_known_by_their_address(dir: Seq<char>, key: Seq<char>, c: CardView)
    requires
        !key.contains('/'),
    ensures
        gpu::key_of(dir + seq!['/'] + (key + "-card"@)) == key,
        gpu::devnode_of(c) == "/dev/dri/"@ + c.card,
{
    reveal_strlit("-card");
    let name = key + "-card"@;
    assert(!name.contains('/')) by {
        if name.contains('/') {
            let i = choose|i: int| 0 <= i < name.len() && name[i] == '/';
            if i < key.len() {
                assert(key.contains(key[i]));
            } else {
                assert(name[i] == "-card"@[i - key.len()]);
            }
        }
    }
    texts::the_last_piece_is_found(dir, name, '/');
    assert(name.skip(name.len() - 5) =~= "-card"@);
    assert(name.take(name.len() - 5) =~= key);
}

// ------------------------------------------------------------------------- telemetry

/// A frame says of the context what it holds: the inputs, a claim of either kind, the
/// settled charger, the base state by name, and the profiles that are wanted, in force and
/// active.
pub proof fn frames_say_what_the_context_holds(c: CtxView)
    ensures
        ({
            let f = telemetry::seen_of(c);
            &&& f.lid_closed == c.inputs.lid_closed
            &&& f.ext_mon_count == c.inputs.ext_mon_count
            &&& f.inhibitor == (c.inputs.logind_inhibitor || c.inputs.wayland_inhibitor)
            &&& f.locked == c.inputs.locked
            &&& f.on_ac == c.power.on_ac_settled
            &&& f.low_battery == c.power.low_battery
            &&& c.power.on_ac_settled && c.inputs.ext_mon_count > 0 ==> f.power_base
                == "docked-ac"@
            &&& c.power.on_ac_settled && c.inputs.ext_mon_count == 0 ==> f.power_base == "ac"@
            &&& !c.power.on_ac_settled && c.power.low_battery ==> f.power_base == "battery-low"@
            &&& !c.power.on_ac_settled && !c.power.low_battery ==> f.power_base == "battery"@
            &&& f.desired_profile == policy::due(c).word()
            &&& c.power.applied is Some ==> f.applied_profile == c.power.applied->0.word()
            &&& c.power.applied is None ==> f.applied_profile.len() == 0
            &&& c.profile.current is Some ==> f.active_profile == c.profile.current->0
            &&& c.profile.current is None ==> f.active_profile.len() == 0
        }),
{
}

/// A frame says what kind of note it is, from where to where, on what occasion, and what
/// was done: for a state, the timer and the panel that go with it.
pub proof fn frames_say_what_happened(c: CtxView, note: Note, ts: u128)
    ensures
        ({
            let f = telemetry::frame_of(c, note, ts);
            &&& f.ts == ts
            &&& f.from == note.from.label() && f.to == note.to.label()
            &&& f.screen == "SCREEN_ACTIVE"@
            &&& f.ctx == telemetry::seen_of(c)
            &&& note.kind == NoteKind::Transition ==> f.kind == "transition"@
            &&& note.kind == NoteKind::Ctx ==> f.kind == "ctx"@
            &&& note.kind == NoteKind::Snapshot ==> f.kind == "snapshot"@
            &&& note.cause == Cause::MonitorsChanged ==> f.event == "MonitorsChanged"@
            &&& note.cause == Cause::ReconcileTick ==> f.event == "ReconcileTick"@
            &&& note.cause == Cause::Startup ==> f.event == "Startup"@
            &&& note.fired == Fired::Nothing ==> f.effectors.len() == 0
            &&& note.fired == Fired::LockAborted ==> f.effectors == seq![
                "request_lock"@,
                "start_grace_timer"@,
            ]
            &&& note.fired == Fired::Entered(State::LidOpen) ==> f.effectors == seq![
                "cancel_grace_timer"@,
                "set_edp_on"@,
            ]
            &&& note.fired == Fired::Entered(State::Docked) ==> f.effectors == seq![
                "cancel_grace_timer"@,
                "set_edp_off"@,
            ]
            &&& note.fired == Fired::Entered(State::Deferred) ==> f.effectors == seq![
                "cancel_grace_timer"@,
                "set_edp_off"@,
                "pause_media"@,
            ]
            &&& note.fired == Fired::Entered(State::Countdown) ==> f.effectors == seq![
                "set_edp_off"@,
                "start_grace_timer"@,
            ]
            &&& note.fired == Fired::Entered(State::Suspending) ==> f.effectors == seq![
                "cancel_grace_timer"@,
                "lock_then_suspend"@,
            ]
        }),
        State::LidOpen.label() == "LID_OPEN"@,
        State::Docked.label() == "DOCKED"@,
        State::Deferred.label() == "DEFERRED"@,
        State::Countdown.label() == "COUNTDOWN"@,
        State::Suspending.label() == "SUSPENDING"@,
{
}

/// What a frame says stands in it under a name of its own.
pub proof fn frames_name_what_they_say(f: FrameView, c: FrameCtxView)
    ensures
        c.object() == "{\"lid_closed\":"@ + (if c.lid_closed {
            "true"@
        } else {
            "false"@
        }) + ",\"ext_mon_count\":"@ + number::decimal(c.ext_mon_count as nat)
            + ",\"inhibitor\":"@ + (if c.inhibitor {
            "true"@
        } else {
            "false"@
        }) + ",\"locked\":"@ + (if c.locked {
            "true"@
        } else {
            "false"@
        }) + ",\"on_ac\":"@ + (if c.on_ac {
            "true"@
        } else {
            "false"@
        }) + ",\"low_battery\":"@ + (if c.low_battery {
            "true"@
        } else {
            "false"@
        }) + ",\"power_base\":"@ + json::quoted(c.power_base) + ",\"desired_profile\":"@
            + json::quoted(c.desired_profile) + ",\"applied_profile\":"@ + json::quoted(
            c.applied_profile,
        ) + ",\"active_profile\":"@ + json::quoted(c.active_profile) + "}"@,
        f.object() == "{\"ts\":"@ + number::decimal(f.ts as nat) + ",\"kind\":"@ + json::quoted(
            f.kind,
        ) + ",\"from\":"@ + json::quoted(f.from) + ",\"event\":"@ + json::quoted(f.event)
            + ",\"to\":"@ + json::quoted(f.to) + ",\"screen\":"@ + json::quoted(f.screen)
            + ",\"ctx\":"@ + f.ctx.object() + ",\"effectors\":"@ + telemetry::array_of(f.effectors)
            + "}"@,
{
}

/// A frame that differs from the last that got through is sent: over the connection there
/// is, or after one was made. A write that fails is tried once more on a new connection.
pub proof fn changed_frames_are_sent(e: TelemetryEmitter, fp: u64)
    ensures
        e.last_fp == Some(fp) ==> e.offered(fp).1 == Delivery::Done(false),
        e.last_fp != Some(fp) && e.connected ==> e.offered(fp).1 == Delivery::Write,
        e.last_fp != Some(fp) && !e.connected ==> e.offered(fp).1 == Delivery::Connect,
        !e.offered(fp).0.retried,
        e.after_connect(true).1 == Delivery::Write && e.after_connect(true).0.connected,
        e.after_connect(false).1 == Delivery::Done(false) && !e.after_connect(false).0.connected,
        e.after_write(fp, true).1 == Delivery::Done(true),
        e.after_write(fp, true).0.last_fp == Some(fp),
        e.after_write(fp, true).0.connected == e.connected,
        !e.retried ==> e.after_write(fp, false).1 == Delivery::Connect,
        e.retried ==> e.after_write(fp, false).1 == Delivery::Done(false),
        !e.after_write(fp, false).0.connected && e.after_write(fp, false).0.last_fp is None,
{
}

// ------------------------------------------------------------------------- JSON strings

/// In a JSON string a quote and a backslash stand behind a backslash, and so does a letter
/// for each of five control characters; the other control characters are written by their
/// number, and everything else as it is.
pub proof fn special_characters_are_escaped(s: Seq<char>, c: char)
    ensures
        json::escaped(s.push('"')) == json::escaped(s) + seq!['\\', '"'],
        json::escaped(s.push('\\')) == json::escaped(s) + seq!['\\', '\\'],
        json::escaped(s.push('\u{8}')) == json::escaped(s) + seq!['\\', 'b'],
        json::escaped(s.push('\t')) == json::escaped(s) + seq!['\\', 't'],
        json::escaped(s.push('\n')) == json::escaped(s) + seq!['\\', 'n'],
        json::escaped(s.push('\u{c}')) == json::escaped(s) + seq!['\\', 'f'],
        json::escaped(s.push('\r')) == json::escaped(s) + seq!['\\', 'r'],
        c as int >= 32 && c != '"' && c != '\\' ==> json::escaped(s.push(c)) == json::escaped(s)
            + seq![c],
        json::escaped(s.push('\u{0}')) == json::escaped(s) + seq!['\\', 'u', '0', '0', '0', '0'],
        json::escaped(s.push('\u{1b}')) == json::escaped(s) + seq!['\\', 'u', '0', '0', '1', 'b'],
        json::quoted(s) == seq!['"'] + json::escaped(s) + seq!['"'],
{
    assert(s.push('"').drop_last() =~= s);
    assert(s.push('\\').drop_last() =~= s);
    assert(s.push('\u{8}').drop_last() =~= s);
    assert(s.push('\t').drop_last() =~= s);
    assert(s.push('\n').drop_last() =~= s);
    assert(s.push('\u{c}').drop_last() =~= s);
    assert(s.push('\r').drop_last() =~= s);
    assert(s.push(c).drop_last() =~= s);
    assert(s.push('\u{0}').drop_last() =~= s);
    assert(s.push('\u{1b}').drop_last() =~= s);
}

/// Characters that differ are written differently.
pub proof fn escapes_are_unmistakable(s: Seq<char>, a: char, b: char)
    requires
        a != b,
    ensures
        json::escaped(s.push(a)) != json::escaped(s.push(b)),
{
    assert(s.push(a).drop_last() =~= s);
    assert(s.push(b).drop_last() =~= s);
    let (x, y) = (json::escaped(s.push(a)), json::escaped(s.push(b)));
    let n = json::escaped(s).len() as int;
    assert(x.skip(n) =~= json::escaped_char(a));
    assert(y.skip(n) =~= json::escaped_char(b));
    let (p, q) = (json::escaped_char(a), json::escaped_char(b));
    if p == q {
        let (i, j) = (a as int, b as int);
        assert(p.len() == q.len());
        if p.len() == 6 {
            assert(p[4] == q[4] && p[5] == q[5]);
            assert(i / 16 == j / 16);
            assert(i % 16 == j % 16);
        } else if p.len() == 2 {
            assert(p[1] == q[1]);
        } else {
            assert(p[0] == q[0]);
        }
    }
}

} // verus!
