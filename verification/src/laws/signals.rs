//! What the sources make of what they read.
use vstd::prelude::*;

use crate::event::Event;
use crate::fsm::EventKind;
use crate::hypridle_log;
use crate::hypridle_log::ParseHealth;
use crate::laws::texts;
use crate::number;
use crate::sources;
use crate::sources::{InhibitorPoller, InhibitorRow, ModeView, Session, SocketLine};
use crate::text;

verus! {

// ------------------------------------------------------------------------- the socket

/// A monitor that came is known by its name, which stands between its number and its
/// description.
pub proof fn added_monitors_are_known_by_name(
    id: Seq<char>,
    name: Seq<char>,
    description: Seq<char>,
)
    requires
        !id.contains(','),
        !name.contains(','),
    ensures
        sources::socket_line(
            "monitoraddedv2>>"@ + (id + seq![','] + (name + seq![','] + description)),
        ) == SocketLine::Added(name),
{
    let rest = id + seq![','] + (name + seq![','] + description);
    let line = "monitoraddedv2>>"@ + rest;
    let n = "monitoraddedv2>>"@.len() as int;
    assert(line.take(n) =~= "monitoraddedv2>>"@);
    assert(line.skip(n) =~= rest);
    texts::pieces_stand_between_separators(id, name + seq![','] + description, ',');
    texts::pieces_stand_between_separators(name, description, ',');
}

/// A monitor that left is known by its name; a configuration that was read again is told
/// by its word, whatever stands behind it; and every other line says nothing.
pub proof fn other_lines_are_told_apart(name: Seq<char>, line: Seq<char>)
    ensures
        sources::socket_line("monitorremoved>>"@ + name) == SocketLine::Removed(name),
        sources::socket_line("configreloaded"@ + name) == SocketLine::Reloaded,
        line.len() > 0 && line[0] != 'm' && line[0] != 'c' ==> sources::socket_line(line)
            == SocketLine::Other,
{
    reveal_strlit("monitoraddedv2>>");
    reveal_strlit("monitorremoved>>");
    reveal_strlit("configreloaded");
    let gone = "monitorremoved>>"@ + name;
    assert(gone.take(16) =~= "monitorremoved>>"@);
    assert(gone.skip(16) =~= name);
    assert(gone[7] == 'r');
    assert(!text::has_prefix(gone, "monitoraddedv2>>"@)) by {
        if text::has_prefix(gone, "monitoraddedv2>>"@) {
            assert(gone.take(16)[7] == gone[7]);
        }
    }
    let again = "configreloaded"@ + name;
    assert(again.take(14) =~= "configreloaded"@);
    assert(again[0] == 'c');
    assert(!text::has_prefix(again, "monitoraddedv2>>"@)) by {
        if text::has_prefix(again, "monitoraddedv2>>"@) {
            assert(again.take(16)[0] == again[0]);
        }
    }
    assert(!text::has_prefix(again, "monitorremoved>>"@)) by {
        if text::has_prefix(again, "monitorremoved>>"@) {
            assert(again.take(16)[0] == again[0]);
        }
    }
    if line.len() > 0 && line[0] != 'm' && line[0] != 'c' {
        if text::has_prefix(line, "monitoraddedv2>>"@) {
            assert(line.take(16)[0] == line[0]);
        }
        if text::has_prefix(line, "monitorremoved>>"@) {
            assert(line.take(16)[0] == line[0]);
        }
        if text::has_prefix(line, "configreloaded"@) {
            assert(line.take(14)[0] == line[0]);
        }
    }
}

// ---------------------------------------------------------------------- the inhibitors

/// The holders whose claims do not count.
pub open spec fn is_standing(who: Seq<char>) -> bool {
    ||| who == "ModemManager"@
    ||| who == "NetworkManager"@
    ||| who == "UPower"@
    ||| who == "hypridle"@
    ||| who == "logind-idle-control"@
    ||| who == "hyprstate"@
    ||| who == "hypr-power"@
    ||| who == "hypr-fsm"@
}

/// A claim counts where it blocks, where idling or sleep is among what it blocks, and
/// where its holder is none of those that always hold one.
pub proof fn blocking_claims_count(row: InhibitorRow, what: Seq<Seq<char>>)
    requires
        what.len() > 0,
        forall|i: int| 0 <= i < what.len() ==> !(#[trigger] what[i]).contains(':'),
        row.what@ == text::joined(what, seq![':']),
    ensures
        row.is_real() == (row.mode@ == "block"@ && (what.contains("idle"@) || what.contains(
            "sleep"@,
        )) && !is_standing(row.who@)),
{
    text::split_undoes_join(what, ':');
}

/// One claim that counts is enough, and without one there is none.
pub proof fn one_claim_is_enough(rows: Seq<InhibitorRow>, i: int)
    requires
        0 <= i < rows.len(),
    ensures
        rows[i].is_real() ==> sources::any_real(rows),
        sources::any_real(rows) && rows.len() == 1 ==> rows[i].is_real(),
        !sources::any_real(Seq::<InhibitorRow>::empty()),
{
}

/// A claim that came or went since the last poll is reported, of its own kind and as it is
/// now; a login manager that did not answer is taken to be as it was.
pub proof fn claims_are_reported_as_they_change(
    p: InhibitorPoller,
    logind: Option<bool>,
    tail: Option<Seq<char>>,
)
    ensures
        ({
            let q = p.polled(logind, tail);
            let wayland = hypridle_log::inhibitor_of(tail).0;
            &&& logind is Some ==> q.logind == logind->0
            &&& logind is None ==> q.logind == p.logind
            &&& q.wayland == wayland
            &&& q.health == hypridle_log::inhibitor_of(tail).1
            &&& q.logind == p.logind && q.wayland == p.wayland ==> p.edges(q).len() == 0
            &&& q.logind != p.logind && q.wayland == p.wayland ==> p.edges(q) == seq![
                Event::Inhibitor { wayland: false, active: q.logind },
            ]
            &&& q.logind == p.logind && q.wayland != p.wayland ==> p.edges(q) == seq![
                Event::Inhibitor { wayland: true, active: q.wayland },
            ]
            &&& q.logind != p.logind && q.wayland != p.wayland ==> p.edges(q) == seq![
                Event::Inhibitor { wayland: false, active: q.logind },
                Event::Inhibitor { wayland: true, active: q.wayland },
            ]
        }),
{
    let q = p.polled(logind, tail);
    if q.logind != p.logind && q.wayland == p.wayland {
        assert(p.edges(q) =~= seq![Event::Inhibitor { wayland: false, active: q.logind }]);
    }
    if q.logind == p.logind && q.wayland != p.wayland {
        assert(p.edges(q) =~= seq![Event::Inhibitor { wayland: true, active: q.wayland }]);
    }
    if q.logind != p.logind && q.wayland != p.wayland {
        assert(p.edges(q) =~= seq![
            Event::Inhibitor { wayland: false, active: q.logind },
            Event::Inhibitor { wayland: true, active: q.wayland },
        ]);
    }
}

// ------------------------------------------------------------------------- the idle log

/// A line of the log that gives the count is read as that count, whatever stands behind
/// the number.
pub proof fn counts_are_read_from_the_log(n: u64, rest: Seq<char>)
    requires
        rest.len() == 0 || !number::is_digit(rest[0]),
    ensures
        hypridle_log::line_locks("Inhibit locks: "@ + number::decimal(n as nat) + rest) == Some(
            n as int,
        ),
{
    reveal_strlit("Inhibit locks: ");
    reveal_strlit("inhibit locks:");
    let d = number::decimal(n as nat);
    let line = "Inhibit locks: "@ + d + rest;
    number::lemma_decimal_digits(n as nat);
    let low = text::lowered(line);
    assert(low.take(14) =~= "inhibit locks:"@);
    assert(text::find_part(low, "inhibit locks:"@) == Some(0nat));
    let tail = line.skip(14);
    assert(tail[0] == ' ');
    assert(tail[1] == d[0]);
    assert(number::is_digit(d[0]));
    text::lemma_lead(tail, 1);
    let shown = text::trimmed_start(tail);
    assert(shown =~= d + rest);
    lemma_digits_end(shown, d.len() as int);
    assert(shown.take(d.len() as int) =~= d);
    assert(d[0] != '+');
}

proof fn lemma_digits_end(s: Seq<char>, k: int)
    requires
        0 <= k <= s.len(),
        forall|i: int| 0 <= i < k ==> number::is_digit(#[trigger] s[i]),
        k == s.len() || !number::is_digit(s[k]),
    ensures
        number::digit_len(s) == k,
    decreases k,
{
    if k > 0 {
        let t = s.skip(1);
        assert forall|i: int| 0 <= i < k - 1 implies number::is_digit(#[trigger] t[i]) by {
            assert(t[i] == s[i + 1]);
        }
        assert(number::is_digit(s[0]));
        lemma_digits_end(t, k - 1);
    }
}

/// The last count of the log decides: any lock at all inhibits, and none does not. A line
/// without a count changes nothing.
pub proof fn the_last_count_decides(s: Seq<char>, lines: Seq<Seq<char>>, line: Seq<char>)
    requires
        s.len() > 0,
        text::lines_of(s) == lines.push(line),
    ensures
        hypridle_log::line_locks(line) == Some(0int) ==> hypridle_log::inhibitor_of(Some(s)) == (
            false,
            ParseHealth::Healthy,
        ),
        hypridle_log::line_locks(line) is Some && hypridle_log::line_locks(line)->0 > 0
            ==> hypridle_log::inhibitor_of(Some(s)) == (true, ParseHealth::Healthy),
        hypridle_log::line_locks(line) is None && lines.len() == 0 ==> hypridle_log::inhibitor_of(
            Some(s),
        ) == (false, ParseHealth::NoMarkerFound),
        hypridle_log::line_locks(line) is None ==> hypridle_log::last_locks(text::lines_of(s))
            == hypridle_log::last_locks(lines),
{
    assert(lines.push(line).last() == line);
    assert(lines.push(line).drop_last() =~= lines);
}

/// A log that cannot be read, or that is empty, inhibits nothing, and says so.
pub proof fn unreadable_logs_inhibit_nothing()
    ensures
        hypridle_log::inhibitor_of(None) == (false, ParseHealth::ReadError),
        hypridle_log::inhibitor_of(Some(Seq::empty())) == (false, ParseHealth::LogMissing),
{
}

// ------------------------------------------------------------------------ the mode files

/// A file whose word changed is reported, with its word now; the others are silent.
pub proof fn changed_words_are_reported(a: ModeView, b: ModeView)
    ensures
        a.gpu == b.gpu && a.power == b.power && a.request == b.request && a.sources == b.sources
            && a.platform != b.platform ==> sources::mode_edges(a, b) == seq![
            Some((EventKind::PlatformProfileChanged, b.platform)),
        ],
        a.platform == b.platform && a.power == b.power && a.request == b.request && a.sources
            == b.sources && a.gpu != b.gpu ==> sources::mode_edges(a, b) == seq![
            Some((EventKind::GpuOverrideChanged, b.gpu)),
        ],
        a.platform == b.platform && a.gpu == b.gpu && a.request == b.request && a.sources
            == b.sources && a.power != b.power ==> sources::mode_edges(a, b) == seq![
            Some((EventKind::PowerOverrideChanged, b.power)),
        ],
        a.platform == b.platform && a.gpu == b.gpu && a.power == b.power && a.sources == b.sources
            && a.request != b.request ==> sources::mode_edges(a, b) == seq![
            Some((EventKind::SuspendRequestChanged, b.request)),
        ],
        a.platform == b.platform && a.gpu == b.gpu && a.power == b.power && a.request == b.request
            && a.sources != b.sources ==> sources::mode_edges(a, b) == seq![
            Some((EventKind::ProfilesChanged, None::<Seq<char>>)),
        ],
        a == b ==> sources::mode_edges(a, b).len() == 0,
        a.platform != b.platform && a.gpu != b.gpu && a.power != b.power && a.request != b.request
            && a.sources != b.sources ==> sources::mode_edges(a, b).len() == 5,
{
    let e = sources::mode_edges(a, b);
    if a.platform != b.platform && e.len() == 1 {
        assert(e =~= seq![Some((EventKind::PlatformProfileChanged, b.platform))]);
    }
    if a.gpu != b.gpu && e.len() == 1 {
        assert(e =~= seq![Some((EventKind::GpuOverrideChanged, b.gpu))]);
    }
    if a.power != b.power && e.len() == 1 {
        assert(e =~= seq![Some((EventKind::PowerOverrideChanged, b.power))]);
    }
    if a.request != b.request && e.len() == 1 {
        assert(e =~= seq![Some((EventKind::SuspendRequestChanged, b.request))]);
    }
    if a.sources != b.sources && e.len() == 1 {
        assert(e =~= seq![Some((EventKind::ProfilesChanged, None::<Seq<char>>))]);
    }
}

/// An event of a mode file speaks of that file, and says the word that it holds.
pub proof fn words_come_with_their_events(w: Option<String>)
    ensures
        sources::word_of(Event::PlatformProfileChanged(w)) == Some(
            (EventKind::PlatformProfileChanged, text::opt_string(w)),
        ),
        sources::word_of(Event::GpuOverrideChanged(w)) == Some(
            (EventKind::GpuOverrideChanged, text::opt_string(w)),
        ),
        sources::word_of(Event::PowerOverrideChanged(w)) == Some(
            (EventKind::PowerOverrideChanged, text::opt_string(w)),
        ),
        sources::word_of(Event::SuspendRequestChanged(w)) == Some(
            (EventKind::SuspendRequestChanged, text::opt_string(w)),
        ),
        sources::word_of(Event::ProfilesChanged) == Some(
            (EventKind::ProfilesChanged, None::<Seq<char>>),
        ),
        w is Some ==> text::opt_string(w) == Some(w->0@),
        w is None ==> text::opt_string(w) is None,
{
}

// -------------------------------------------------------------------------- the session

/// Of two sessions that are otherwise alike, the active one is likelier than one that is
/// merely online, and that likelier than one that is neither; a graphical one likelier
/// than a textual one; and a user's likelier than a greeter's. No session that is not
/// active beats one that is.
pub proof fn active_graphical_sessions_win(a: Session, b: Session)
    ensures
        ({
            let graphical = a.kind@ == "wayland"@ || a.kind@ == "x11"@ || a.kind@ == "mir"@;
            let textual = b.kind@ != "wayland"@ && b.kind@ != "x11"@ && b.kind@ != "mir"@;
            &&& a.class == b.class && a.kind == b.kind && a.state@ == "active"@ && b.state@
                != "active"@ ==> a.points() > b.points()
            &&& a.class == b.class && a.kind == b.kind && a.state@ == "online"@ && b.state@
                != "active"@ && b.state@ != "online"@ ==> a.points() > b.points()
            &&& a.class == b.class && a.state == b.state && graphical && textual ==> a.points()
                > b.points()
            &&& a.kind == b.kind && a.state == b.state && a.class@ == "user"@ && b.class@
                != "user"@ ==> a.points() > b.points()
            &&& a.state@ == "active"@ && b.state@ != "active"@ ==> a.points() >= b.points()
            &&& a.state@ == "active"@ && a.class@ == "user"@ && graphical ==> a.points() == 7
        }),
{
    reveal_strlit("active");
    reveal_strlit("online");
    assert("active"@[0] != "online"@[0]);
}

} // verus!
