//! The Wayland idle-inhibitor check: the last `Inhibit locks: N` that the idle
//! daemon logged. There is no protocol to ask for it. A health signal goes with the
//! answer, so that a changed log format is loud instead of reading as "nothing
//! inhibits".
use vstd::prelude::*;

use crate::number;
use crate::text;

verus! {

/// How well the log could be read.
#[derive(Debug, Clone, Copy, PartialEq, Eq, Structural)]
pub enum ParseHealth {
    Healthy,
    LogMissing,
    NoMarkerFound,
    ReadError,
}

impl ParseHealth {
    /// The name of a health state.
    pub open spec fn word(self) -> Seq<char> {
        match self {
            ParseHealth::Healthy => "ok"@,
            ParseHealth::LogMissing => "log-missing"@,
            ParseHealth::NoMarkerFound => "no-marker-found"@,
            ParseHealth::ReadError => "read-error"@,
        }
    }

    pub fn as_str(self) -> (r: &'static str)
        ensures
            r@ == self.word(),
    {
        match self {
            ParseHealth::Healthy => "ok",
            ParseHealth::LogMissing => "log-missing",
            ParseHealth::NoMarkerFound => "no-marker-found",
            ParseHealth::ReadError => "read-error",
        }
    }
}

/// The count that a line states: the digits behind its first `inhibit locks:`, in
/// whatever letter case.
pub open spec fn line_locks(line: Seq<char>) -> Option<int> {
    match text::find_part(text::lowered(line), "inhibit locks:"@) {
        Some(k) => {
            let rest = text::trimmed_start(line.skip(k as int + "inhibit locks:"@.len()));
            number::within(
                number::natural_of(rest.take(number::digit_len(rest) as int)),
                0,
                u64::MAX as int,
            )
        },
        None => None,
    }
}

/// The count of the last line that states one.
pub open spec fn last_locks(lines: Seq<Seq<char>>) -> Option<int>
    decreases lines.len(),
{
    if lines.len() == 0 {
        None
    } else if line_locks(lines.last()) is Some {
        line_locks(lines.last())
    } else {
        last_locks(lines.drop_last())
    }
}

/// The count that one line states.
fn locks_in(line: &str) -> (r: Option<u64>)
    ensures
        number::opt_u64(r) == line_locks(line@),
{
    match text::find_folded(line, "inhibit locks:") {
        Some(k) => {
            let n: usize = line.unicode_len();
            let from: usize = k + "inhibit locks:".unicode_len();
            let rest = text::trim_start(line.substring_char(from, n));
            assert(line@.subrange(from as int, line@.len() as int) =~= line@.skip(from as int));
            number::parse_u64(number::leading_digits(rest))
        },
        None => None,
    }
}

/// The last `Inhibit locks: N` in the text, in whatever letter case.
pub fn parse_inhibit_locks(text: &str) -> (r: Option<u64>)
    ensures
        number::opt_u64(r) == last_locks(text::lines_of(text@)),
{
    let lines = text::lines(text);
    let ghost all = text::lines_of(text@);
    let mut latest: Option<u64> = None;
    let mut i: usize = 0;
    while i < lines.len()
        invariant
            i <= lines@.len(),
            text::strs(lines@) == all,
            number::opt_u64(latest) == last_locks(all.take(i as int)),
        decreases lines@.len() - i,
    {
        proof {
            let next = all.take(i + 1);
            assert(next.drop_last() =~= all.take(i as int));
            assert(next.last() == lines@[i as int]@);
        }
        match locks_in(lines[i]) {
            Some(n) => {
                latest = Some(n);
            },
            None => {},
        }
        i += 1;
    }
    assert(all.take(all.len() as int) =~= all);
    latest
}

/// Whether something inhibits idling, and how well that is known, for given log
/// lines (`None` where they could not be read).
pub open spec fn inhibitor_of(tail: Option<Seq<char>>) -> (bool, ParseHealth) {
    match tail {
        None => (false, ParseHealth::ReadError),
        Some(s) => if s.len() == 0 {
            (false, ParseHealth::LogMissing)
        } else {
            match last_locks(text::lines_of(s)) {
                Some(n) => (n > 0, ParseHealth::Healthy),
                None => (false, ParseHealth::NoMarkerFound),
            }
        },
    }
}

/// Whether something inhibits idling, and how well that is known. `tail` holds the
/// newest log lines, oldest first; `None` where they could not be read. The last
/// count wins; any lock at all inhibits.
pub fn wayland_inhibitor_active(tail: Option<&str>) -> (r: (bool, ParseHealth))
    ensures
        r == inhibitor_of(text::opt_str(tail)),
{
    match tail {
        None => (false, ParseHealth::ReadError),
        Some(s) => {
            if s.is_empty() {
                return (false, ParseHealth::LogMissing);
            }
            match parse_inhibit_locks(s) {
                Some(n) => (n > 0, ParseHealth::Healthy),
                None => (false, ParseHealth::NoMarkerFound),
            }
        },
    }
}

/// Nothing is reported to inhibit unless the log was read and its last count says
/// so.
pub proof fn inhibits_only_on_a_healthy_count(tail: Option<Seq<char>>)
    ensures
        inhibitor_of(tail).0 ==> inhibitor_of(tail).1 == ParseHealth::Healthy,
        inhibitor_of(tail).1 == ParseHealth::Healthy ==> tail is Some && last_locks(
            text::lines_of(tail->0),
        ) is Some,
{
}

/// A line that states a count outranks everything before it.
pub proof fn last_count_wins(lines: Seq<Seq<char>>, line: Seq<char>)
    requires
        line_locks(line) is Some,
    ensures
        last_locks(lines.push(line)) == line_locks(line),
{
    assert(lines.push(line).last() == line);
}

} // verus!
