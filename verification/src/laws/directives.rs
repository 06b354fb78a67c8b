//! What a `#@ key = value` line is read as.
use vstd::prelude::*;

use crate::profiles;
use crate::text;

verus! {

/// A directive as it is written.
pub open spec fn directive(key: Seq<char>, val: Seq<char>) -> Seq<char> {
    "#@ "@ + key + " = "@ + val
}

/// A value as it is written: something, with no white space at either end, on one line.
pub open spec fn is_value(val: Seq<char>) -> bool {
    &&& val.len() > 0
    &&& !text::is_white(val[0])
    &&& !text::is_white(val.last())
    &&& !val.contains('\n')
}

/// A directive is read as the key and the value that were written, whatever the value
/// holds, and it is one line.
pub proof fn directives_are_read_back(key: Seq<char>, val: Seq<char>, hyphens: bool)
    requires
        profiles::is_key(key, hyphens),
        is_value(val),
    ensures
        profiles::directive_of(directive(key, val), hyphens) == Some((key, val)),
        text::has_prefix(directive(key, val), "#@"@),
        text::lines_of(directive(key, val)) == seq![directive(key, val)],
        text::lines_of(directive(key, val) + "\n"@) == seq![directive(key, val)],
{
    reveal_strlit("#@ ");
    reveal_strlit("#@");
    reveal_strlit(" = ");
    reveal_strlit("\n");
    let line = directive(key, val);
    assert(line.take(2) =~= "#@"@);
    let tail = line.skip(2);
    assert(tail[0] == ' ');
    assert(tail[1] == key[0]);
    assert(profiles::is_lower(key[0]));
    text::lemma_lead(tail, 1);
    let rest = text::trimmed_start(tail);
    assert(rest =~= key + " = "@ + val);
    let n = key.len() as int;
    assert(rest[n] == ' ' && rest[n + 1] == '=' && rest[n + 2] == ' ');
    assert forall|i: int| 0 <= i < n + 1 implies rest[i] != '=' by {
        if i < n {
            assert(rest[i] == key[i]);
        }
    }
    text::lemma_find(rest, '=', n + 1);
    let left = rest.take(n + 1);
    assert(left =~= key.push(' '));
    assert(!text::is_white(key[n - 1])) by {
        assert(profiles::is_lower(key[n - 1]) || key[n - 1] == '-');
    }
    text::lemma_trail(left, n);
    assert(text::trimmed_end(left) =~= key);
    let right = rest.skip(n + 2);
    assert(right =~= " "@ + val) by {
        reveal_strlit(" ");
    }
    assert(right[0] == ' ' && right[1] == val[0]);
    text::lemma_lead(right, 1);
    assert(text::trimmed_start(right) =~= val);
    text::lemma_trail(val, val.len() as int);
    assert(text::trimmed_end(val) =~= val);
    assert forall|i: int| 0 <= i < line.len() implies line[i] != '\n' by {
        if i < 3 {
        } else if i < 3 + n {
            assert(line[i] == key[i - 3]);
            assert(profiles::is_lower(key[i - 3]) || key[i - 3] == '-');
        } else if i < 6 + n {
            assert(line[i] == " = "@[i - 3 - n]);
        } else {
            assert(line[i] == val[i - 6 - n]);
        }
    }
    text::lemma_find(line, '\n', line.len() as int);
    let ended = line + "\n"@;
    assert forall|i: int| 0 <= i < line.len() implies ended[i] != '\n' by {
        assert(ended[i] == line[i]);
    }
    assert(ended[line.len() as int] == '\n');
    text::lemma_find(ended, '\n', line.len() as int);
    assert(ended.take(line.len() as int) =~= line);
    assert(line.last() == val.last());
    assert(ended.skip(line.len() as int + 1) =~= Seq::<char>::empty());
    assert(text::lines_of(Seq::<char>::empty()) =~= Seq::<Seq<char>>::empty());
    assert(seq![line] + Seq::<Seq<char>>::empty() =~= seq![line]);
}

/// A line without a value is no directive, nor is one without an equals sign, nor one whose
/// key holds anything but letters (and hyphens behind the first, where those are allowed).
pub proof fn incomplete_lines_are_no_directives(
    key: Seq<char>,
    blank: Seq<char>,
    rest: Seq<char>,
    i: int,
    hyphens: bool,
)
    requires
        forall|k: int| 0 <= k < blank.len() ==> text::is_white(#[trigger] blank[k]),
        !rest.contains('='),
        key.len() > 0,
        !key.contains('='),
    ensures
        profiles::directive_of("#@"@ + key + "="@ + blank, hyphens) is None,
        profiles::directive_of("#@"@ + rest, hyphens) is None,
        !text::has_prefix(rest, "#@"@) ==> profiles::directive_of(rest, hyphens) is None,
        0 <= i < key.len() && !(97 <= key[i] as u32 <= 122) && key[i] != '-' ==> !profiles::is_key(
            key,
            hyphens,
        ),
        key[0] == '-' ==> !profiles::is_key(key, hyphens),
        0 <= i < key.len() && key[i] == '-' ==> !profiles::is_key(key, false),
{
    reveal_strlit("#@");
    reveal_strlit("=");
    let line = "#@"@ + key + "="@ + blank;
    let tail = line.skip(2);
    assert(tail =~= key + "="@ + blank);
    let t = text::trimmed_start(tail);
    let n = text::lead(tail) as int;
    text::lemma_count_bounds(tail);
    lemma_lead_stops(tail, key.len() as int);
    let at = key.len() - n;
    assert forall|k: int| 0 <= k < at implies t[k] != '=' by {
        assert(t[k] == key[k + n]);
        assert(key.contains(key[k + n]));
    }
    assert(t[at] == '=');
    text::lemma_find(t, '=', at);
    assert(t.skip(at + 1) =~= blank);
    text::lemma_lead(blank, blank.len() as int);
    assert(text::trimmed_start(blank).len() == 0);
    assert(text::trimmed(blank).len() == 0);
    let plain = "#@"@ + rest;
    assert(plain.skip(2) =~= rest);
    let u = text::trimmed_start(rest);
    text::lemma_count_bounds(rest);
    let m = text::lead(rest) as int;
    assert forall|k: int| 0 <= k < u.len() implies u[k] != '=' by {
        assert(u[k] == rest[k + m]);
        assert(rest.contains(rest[k + m]));
    }
    text::lemma_find(u, '=', u.len() as int);
}

proof fn lemma_lead_stops(s: Seq<char>, k: int)
    requires
        0 <= k < s.len(),
        !text::is_white(s[k]),
    ensures
        text::lead(s) <= k,
    decreases k,
{
    if k > 0 && text::is_white(s[0]) {
        assert(s.skip(1)[k - 1] == s[k]);
        lemma_lead_stops(s.skip(1), k - 1);
    }
}

} // verus!
