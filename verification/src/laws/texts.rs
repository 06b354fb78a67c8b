//! How texts are taken apart and put together.
use vstd::prelude::*;

use crate::number;
use crate::order;
use crate::text;

verus! {

/// The characters that a text is trimmed of, among those that anybody types.
pub proof fn blanks_are_white(c: char)
    ensures
        text::is_white(' ') && text::is_white('\t') && text::is_white('\n') && text::is_white('\r'),
        33 <= c as u32 <= 126 ==> !text::is_white(c),
{
}

/// White space round a text is dropped, and nothing of the text.
pub proof fn trimming_drops_what_is_round_a_text(
    before: Seq<char>,
    s: Seq<char>,
    after: Seq<char>,
)
    requires
        forall|i: int| 0 <= i < before.len() ==> text::is_white(#[trigger] before[i]),
        forall|i: int| 0 <= i < after.len() ==> text::is_white(#[trigger] after[i]),
        s.len() > 0,
        !text::is_white(s[0]),
        !text::is_white(s.last()),
    ensures
        text::trimmed(before + s + after) == s,
        text::trimmed_start(before + s + after) == s + after,
        text::trimmed(before).len() == 0,
{
    let all = before + s + after;
    let n = before.len() as int;
    assert forall|i: int| 0 <= i < n implies text::is_white(all[i]) by {
        assert(all[i] == before[i]);
    }
    assert(all[n] == s[0]);
    text::lemma_lead(all, n);
    let rest = text::trimmed_start(all);
    assert(rest =~= s + after);
    assert forall|i: int| s.len() <= i < rest.len() implies text::is_white(rest[i]) by {
        assert(rest[i] == after[i - s.len()]);
    }
    assert(rest[s.len() - 1] == s.last());
    text::lemma_trail(rest, s.len() as int);
    assert(text::trimmed_end(rest) =~= s);
    text::lemma_lead(before, n);
    assert(text::trimmed_start(before).len() == 0);
}

/// A line ends at the line feed, and a carriage return before it goes with it; what comes
/// after are lines of their own. A rest without a line feed is a line, an empty one is not.
pub proof fn lines_end_at_line_feeds(line: Seq<char>, rest: Seq<char>)
    requires
        !line.contains('\n'),
    ensures
        line.len() > 0 && line.last() == '\r' ==> text::lines_of(line + seq!['\n'] + rest) == seq![
            line.drop_last(),
        ] + text::lines_of(rest),
        line.len() == 0 || line.last() != '\r' ==> text::lines_of(line + seq!['\n'] + rest)
            == seq![line] + text::lines_of(rest),
        line.len() > 0 ==> text::lines_of(line) == seq![line],
        text::lines_of(Seq::empty()) == Seq::<Seq<char>>::empty(),
{
    let all = line + seq!['\n'] + rest;
    let n = line.len() as int;
    assert forall|i: int| 0 <= i < n implies all[i] != '\n' && line[i] != '\n' by {
        assert(all[i] == line[i]);
        assert(line.contains(line[i]));
    }
    assert(all[n] == '\n');
    text::lemma_find(all, '\n', n);
    text::lemma_find(line, '\n', n);
    assert(all.take(n) =~= line);
    assert(all.skip(n + 1) =~= rest);
}

/// A text is split at every separator: what stands before the first, and the pieces of the
/// rest. A text without one is its own only piece.
pub proof fn pieces_stand_between_separators(piece: Seq<char>, rest: Seq<char>, c: char)
    requires
        !piece.contains(c),
    ensures
        text::split_of(piece + seq![c] + rest, c) == seq![piece] + text::split_of(rest, c),
        text::split_of(piece, c) == seq![piece],
{
    let all = piece + seq![c] + rest;
    let n = piece.len() as int;
    assert forall|i: int| 0 <= i < n implies all[i] != c && piece[i] != c by {
        assert(all[i] == piece[i]);
        assert(piece.contains(piece[i]));
    }
    assert(all[n] == c);
    text::lemma_find(all, c, n);
    text::lemma_find(piece, c, n);
    assert(all.take(n) =~= piece);
    assert(all.skip(n + 1) =~= rest);
}

/// The words of a text are what stands between white space: the first, and the words of
/// what comes after it. White space alone holds none.
pub proof fn words_stand_between_blanks(blank: Seq<char>, word: Seq<char>, rest: Seq<char>)
    requires
        forall|i: int| 0 <= i < blank.len() ==> text::is_white(#[trigger] blank[i]),
        word.len() > 0,
        forall|i: int| 0 <= i < word.len() ==> !text::is_white(#[trigger] word[i]),
        rest.len() == 0 || text::is_white(rest[0]),
    ensures
        text::words_of(blank + word + rest) == seq![word] + text::words_of(rest),
        text::words_of(blank) == Seq::<Seq<char>>::empty(),
        text::first_word_of(blank + word + rest) == Some(word),
        text::first_word_of(blank) is None,
{
    let all = blank + word + rest;
    let n = blank.len() as int;
    assert forall|i: int| 0 <= i < n implies text::is_white(all[i]) by {
        assert(all[i] == blank[i]);
    }
    assert(all[n] == word[0]);
    text::lemma_lead(all, n);
    let t = text::trimmed_start(all);
    assert(t =~= word + rest);
    lemma_word_len(t, word.len() as int);
    assert(t.take(word.len() as int) =~= word);
    assert(t.skip(word.len() as int) =~= rest);
    text::lemma_lead(blank, n);
    assert(text::trimmed_start(blank).len() == 0);
}

proof fn lemma_word_len(s: Seq<char>, k: int)
    requires
        0 <= k <= s.len(),
        forall|i: int| 0 <= i < k ==> !text::is_white(#[trigger] s[i]),
        k == s.len() || text::is_white(s[k]),
    ensures
        text::word_len(s) == k,
    decreases k,
{
    if k > 0 {
        let t = s.skip(1);
        assert forall|i: int| 0 <= i < k - 1 implies !text::is_white(#[trigger] t[i]) by {
            assert(t[i] == s[i + 1]);
        }
        assert(!text::is_white(s[0]));
        lemma_word_len(t, k - 1);
    }
}

/// Texts are joined in their order, with the separator between each two.
pub proof fn joining_keeps_the_order(parts: Seq<Seq<char>>, last: Seq<char>, sep: Seq<char>)
    ensures
        text::joined(Seq::empty(), sep).len() == 0,
        text::joined(seq![last], sep) == last,
        parts.len() > 0 ==> text::joined(parts.push(last), sep) == text::joined(parts, sep) + sep
            + last,
{
    assert(parts.push(last).drop_last() =~= parts);
}

/// What stands behind the last separator is what was put there.
pub proof fn the_last_piece_is_found(before: Seq<char>, name: Seq<char>, c: char)
    requires
        !name.contains(c),
    ensures
        text::after_last(before + seq![c] + name, c) == name,
        text::after_last(name, c) == name,
{
    let all = before + seq![c] + name;
    assert forall|i: int| 0 <= i < name.len() implies name[i] != c by {
        assert(name.contains(name[i]));
    }
    lemma_tail(all, c, before.len() as int + 1);
    assert(all.skip(before.len() as int + 1) =~= name);
    lemma_tail(name, c, 0);
    assert(name.skip(0) =~= name);
}

pub proof fn lemma_tail(s: Seq<char>, c: char, k: int)
    requires
        0 <= k <= s.len(),
        forall|i: int| k <= i < s.len() ==> #[trigger] s[i] != c,
        k == 0 || s[k - 1] == c,
    ensures
        text::tail_len(s, c) == s.len() - k,
    decreases s.len() - k,
{
    if k < s.len() {
        let t = s.drop_last();
        assert forall|i: int| k <= i < t.len() implies #[trigger] t[i] != c by {
            assert(t[i] == s[i]);
        }
        assert(s.last() == s[s.len() - 1]);
        lemma_tail(t, c, k);
    }
}

/// Of two texts that differ first at some character, the one with the smaller character
/// there comes first; a text comes before every longer one that starts with it.
pub proof fn texts_are_ordered_like_words(common: Seq<char>, a: Seq<char>, b: Seq<char>)
    ensures
        a.len() > 0 && b.len() > 0 && (a[0] as int) < (b[0] as int) ==> text::text_less(
            common + a,
            common + b,
        ) && !text::text_less(common + b, common + a),
        b.len() > 0 ==> text::text_less(common, common + b) && !text::text_less(common + b, common),
    decreases common.len(),
{
    if common.len() == 0 {
        assert(common + a =~= a);
        assert(common + b =~= b);
    } else {
        texts_are_ordered_like_words(common.skip(1), a, b);
        assert((common + a).skip(1) =~= common.skip(1) + a);
        assert((common + b).skip(1) =~= common.skip(1) + b);
        assert((common + a)[0] == common[0]);
        assert((common + b)[0] == common[0]);
    }
}

/// Sorting brings the smaller text to the front, whichever came first.
pub proof fn sorting_brings_smaller_texts_forward(keys: Seq<Seq<char>>, i: int)
    requires
        0 <= i < keys.len(),
    ensures
        order::sorted_texts(keys).len() == keys.len(),
        order::sorted_texts(keys).contains(keys[i]),
        !text::text_less(keys[i], order::sorted_texts(keys)[0]),
        !text::text_less(order::sorted_texts(keys).last(), keys[i]),
{
    order::sorted_texts_hold(keys);
    let s = order::sorted_texts(keys);
    assert(keys.contains(keys[i]));
    assert(s.contains(keys[i]));
    let k = choose|k: int| 0 <= k < s.len() && s[k] == keys[i];
    text::lemma_text_irreflexive(keys[i]);
    if k > 0 {
        assert(!text::text_less(s[k], s[0]));
    }
    if k < s.len() - 1 {
        assert(!text::text_less(s[s.len() - 1], s[k]));
    }
}

/// Letters fold to lower case, and nothing else changes.
pub proof fn only_capitals_fold(c: char)
    ensures
        text::ascii_lower('A') == 'a' && text::ascii_lower('I') == 'i' && text::ascii_lower('Z')
            == 'z',
        !(65 <= c as u32 <= 90) ==> text::ascii_lower(c) == c,
        65 <= c as u32 <= 90 ==> text::ascii_lower(c) as u32 == c as u32 + 32,
{
}

/// A column is filled up with spaces to its width, and a text that is wider stays whole.
pub proof fn columns_are_filled_up(s: Seq<char>, width: int)
    ensures
        text::padded(s, width).len() == (if width > s.len() {
            width
        } else {
            s.len() as int
        }),
        text::padded(s, width).take(s.len() as int) == s,
        forall|i: int| s.len() <= i < width ==> #[trigger] text::padded(s, width)[i] == ' ',
{
    assert(text::padded(s, width).take(s.len() as int) =~= s);
}

/// A number is read as it is written, with or without a plus sign; a minus sign is none of
/// a natural number, and a text with anything but digits in it is no number.
pub proof fn numbers_are_read_as_written(n: nat, other: Seq<char>, i: int)
    requires
        1 <= i < other.len(),
        !('0' as u32 <= other[i] as u32 <= '9' as u32),
    ensures
        number::natural_of(number::decimal(n)) == Some(n as int),
        number::natural_of(seq!['+'] + number::decimal(n)) == Some(n as int),
        number::natural_of(seq!['-'] + number::decimal(n)) is None,
        number::integer_of(seq!['-'] + number::decimal(n)) == Some(-(n as int)),
        number::natural_of(other) is None,
        number::natural_of(Seq::empty()) is None,
        number::integer_of(other) is None,
{
    let d = number::decimal(n);
    number::lemma_decimal_digits(n);
    assert(number::is_digit(d[0]));
    assert((seq!['+'] + d).skip(1) =~= d);
    assert((seq!['-'] + d).skip(1) =~= d);
    assert((seq!['-'] + d)[0] == '-');
    assert(!number::is_digit((seq!['-'] + d)[0]));
    assert(other.skip(1)[i - 1] == other[i]);
    assert(!number::is_digit(other.skip(1)[i - 1]));
    assert(!number::is_digit(other[i]));
}

/// Hexadecimal digits count ten to fifteen, in either case, and each place sixteen times
/// the next.
pub proof fn hexadecimal_digits_count(s: Seq<char>, c: char)
    requires
        number::all_hex(s),
        number::hex_digit(c) is Some,
    ensures
        number::hex_digit('0') == Some(0int) && number::hex_digit('9') == Some(9int),
        number::hex_digit('a') == Some(10int) && number::hex_digit('f') == Some(15int),
        number::hex_digit('A') == Some(10int) && number::hex_digit('F') == Some(15int),
        number::hex_digit('g') is None && number::hex_digit('x') is None,
        number::hex_value(s.push(c)) == number::hex_value(s) * 16 + number::hex_digit(c)->0,
        number::hex_value(Seq::empty()) == 0,
        s.len() > 0 ==> number::hex_of(s) == Some(number::hex_value(s) as int),
{
    assert(s.push(c).drop_last() =~= s);
    if s.len() > 0 {
        assert(number::hex_digit(s[0]) is Some);
        assert(s[0] != '+');
    }
}

} // verus!
