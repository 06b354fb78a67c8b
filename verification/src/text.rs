//! Text handling over sequences of characters: trimming, splitting, searching,
//! ordering, and decimal numbers.
use vstd::prelude::*;

verus! {

// ------------------------------------------------------------------ views

/// The character sequences of a sequence of owned strings.
pub open spec fn strings(s: Seq<String>) -> Seq<Seq<char>> {
    Seq::new(s.len(), |i: int| s[i]@)
}

/// The character sequences of a sequence of string slices.
pub open spec fn strs(s: Seq<&str>) -> Seq<Seq<char>> {
    Seq::new(s.len(), |i: int| s[i]@)
}

/// The character sequence of an optional string slice.
pub open spec fn opt_str(o: Option<&str>) -> Option<Seq<char>> {
    match o {
        Some(s) => Some(s@),
        None => None,
    }
}

/// The character sequence of an optional owned string.
pub open spec fn opt_string(o: Option<String>) -> Option<Seq<char>> {
    match o {
        Some(s) => Some(s@),
        None => None,
    }
}

/// Collects the characters of `s`.
pub fn chars(s: &str) -> (r: Vec<char>)
    ensures
        r@ == s@,
{
    let mut v: Vec<char> = Vec::new();
    for c in it: s.chars()
        invariant
            v@ == it.seq().take(it.index()),
    {
        v.push(c);
    }
    v
}

/// Whether two strings hold the same characters.
pub fn str_eq(a: &str, b: &str) -> (r: bool)
    ensures
        r == (a@ == b@),
{
    String::from_str(a) == String::from_str(b)
}

/// Whether an optional string holds exactly the characters of `b`.
pub fn opt_is(a: Option<&str>, b: &str) -> (r: bool)
    ensures
        r == (opt_str(a) == Some(b@)),
{
    match a {
        Some(s) => str_eq(s, b),
        None => false,
    }
}

/// Whether two optional strings are both absent or hold the same characters.
pub fn opt_eq(a: &Option<String>, b: &Option<String>) -> (r: bool)
    ensures
        r == (opt_string(*a) == opt_string(*b)),
{
    match (a, b) {
        (Some(x), Some(y)) => *x == *y,
        (None, None) => true,
        _ => false,
    }
}

/// A copy of an optional string.
pub fn opt_clone(a: &Option<String>) -> (r: Option<String>)
    ensures
        opt_string(r) == opt_string(*a),
{
    match a {
        Some(x) => Some(x.clone()),
        None => None,
    }
}

/// Borrows the characters of an optional string.
pub fn opt_as_str(a: &Option<String>) -> (r: Option<&str>)
    ensures
        opt_str(r) == opt_string(*a),
{
    match a {
        Some(x) => Some(x.as_str()),
        None => None,
    }
}

/// Whether `needle` is one of `hay`.
pub fn str_in(needle: &str, hay: &[&str]) -> (r: bool)
    ensures
        r == strs(hay@).contains(needle@),
{
    let mut i: usize = 0;
    while i < hay.len()
        invariant
            i <= hay@.len(),
            forall|j: int| 0 <= j < i ==> strs(hay@)[j] != needle@,
        decreases hay@.len() - i,
    {
        if str_eq(hay[i], needle) {
            assert(strs(hay@)[i as int] == needle@);
            return true;
        }
        i += 1;
    }
    false
}

/// Whether `needle` is one of `hay`.
pub fn string_in(needle: &str, hay: &Vec<String>) -> (r: bool)
    ensures
        r == strings(hay@).contains(needle@),
{
    let mut i: usize = 0;
    while i < hay.len()
        invariant
            i <= hay@.len(),
            forall|j: int| 0 <= j < i ==> strings(hay@)[j] != needle@,
        decreases hay@.len() - i,
    {
        if str_eq(hay[i].as_str(), needle) {
            assert(strings(hay@)[i as int] == needle@);
            return true;
        }
        i += 1;
    }
    false
}

/// Whether two lists hold the same strings in the same order.
pub fn strings_eq(a: &Vec<String>, b: &Vec<String>) -> (r: bool)
    ensures
        r == (strings(a@) == strings(b@)),
{
    if a.len() != b.len() {
        assert(strings(a@).len() != strings(b@).len());
        return false;
    }
    let mut i: usize = 0;
    while i < a.len()
        invariant
            i <= a@.len(),
            a@.len() == b@.len(),
            forall|j: int| 0 <= j < i ==> strings(a@)[j] == strings(b@)[j],
        decreases a@.len() - i,
    {
        if a[i] != b[i] {
            assert(strings(a@)[i as int] != strings(b@)[i as int]);
            return false;
        }
        i += 1;
    }
    assert(strings(a@) =~= strings(b@));
    true
}

// -------------------------------------------------------------- white space

/// The characters with the Unicode `White_Space` property.
pub open spec fn is_white(c: char) -> bool {
    let n = c as u32;
    ||| 9 <= n <= 13
    ||| n == 32
    ||| n == 0x85
    ||| n == 0xA0
    ||| n == 0x1680
    ||| 0x2000 <= n <= 0x200A
    ||| n == 0x2028
    ||| n == 0x2029
    ||| n == 0x202F
    ||| n == 0x205F
    ||| n == 0x3000
}

/// Whether `c` is white space.
pub fn white(c: char) -> (r: bool)
    ensures
        r == is_white(c),
{
    let n: u32 = c as u32;
    (9 <= n && n <= 13) || n == 32 || n == 0x85 || n == 0xA0 || n == 0x1680 || (0x2000 <= n && n
        <= 0x200A) || n == 0x2028 || n == 0x2029 || n == 0x202F || n == 0x205F || n == 0x3000
}

/// How many white-space characters `s` starts with.
pub open spec fn lead(s: Seq<char>) -> nat
    decreases s.len(),
{
    if s.len() > 0 && is_white(s[0]) {
        1 + lead(s.skip(1))
    } else {
        0
    }
}

/// How many white-space characters `s` ends with.
pub open spec fn trail(s: Seq<char>) -> nat
    decreases s.len(),
{
    if s.len() > 0 && is_white(s.last()) {
        1 + trail(s.drop_last())
    } else {
        0
    }
}

/// `s` without its leading white space.
pub open spec fn trimmed_start(s: Seq<char>) -> Seq<char> {
    s.skip(lead(s) as int)
}

/// `s` without its trailing white space.
pub open spec fn trimmed_end(s: Seq<char>) -> Seq<char> {
    s.take(s.len() - trail(s))
}

/// `s` without white space at either end.
pub open spec fn trimmed(s: Seq<char>) -> Seq<char> {
    trimmed_end(trimmed_start(s))
}

pub proof fn lemma_lead(s: Seq<char>, k: int)
    requires
        0 <= k <= s.len(),
        forall|i: int| 0 <= i < k ==> is_white(s[i]),
        k == s.len() || !is_white(s[k]),
    ensures
        lead(s) == k,
    decreases k,
{
    if k > 0 {
        let t = s.skip(1);
        assert forall|i: int| 0 <= i < k - 1 implies is_white(t[i]) by {
            assert(t[i] == s[i + 1]);
        }
        lemma_lead(t, k - 1);
    }
}

pub proof fn lemma_trail(s: Seq<char>, k: int)
    requires
        0 <= k <= s.len(),
        forall|i: int| k <= i < s.len() ==> is_white(s[i]),
        k == 0 || !is_white(s[k - 1]),
    ensures
        trail(s) == s.len() - k,
    decreases s.len() - k,
{
    if k < s.len() {
        let t = s.drop_last();
        assert forall|i: int| k <= i < t.len() implies is_white(t[i]) by {
            assert(t[i] == s[i]);
        }
        lemma_trail(t, k);
    }
}

/// `str::trim_start`.
pub fn trim_start(s: &str) -> (r: &str)
    ensures
        r@ == trimmed_start(s@),
{
    let v = chars(s);
    let mut k: usize = 0;
    while k < v.len() && white(v[k])
        invariant
            v@ == s@,
            k <= v@.len(),
            forall|i: int| 0 <= i < k ==> is_white(v@[i]),
        decreases v@.len() - k,
    {
        k += 1;
    }
    proof {
        lemma_lead(s@, k as int);
    }
    s.substring_char(k, v.len())
}

/// `str::trim_end`.
pub fn trim_end(s: &str) -> (r: &str)
    ensures
        r@ == trimmed_end(s@),
{
    let v = chars(s);
    let mut k: usize = v.len();
    while k > 0 && white(v[k - 1])
        invariant
            v@ == s@,
            k <= v@.len(),
            forall|i: int| k <= i < v@.len() ==> is_white(v@[i]),
        decreases k,
    {
        k -= 1;
    }
    proof {
        lemma_trail(s@, k as int);
    }
    s.substring_char(0, k)
}

/// `str::trim`.
pub fn trim(s: &str) -> (r: &str)
    ensures
        r@ == trimmed(s@),
{
    trim_end(trim_start(s))
}

// ----------------------------------------------------------------- searching

/// `s` starts with `p`.
pub open spec fn has_prefix(s: Seq<char>, p: Seq<char>) -> bool {
    p.len() <= s.len() && s.take(p.len() as int) == p
}

/// `s` ends with `p`.
pub open spec fn has_suffix(s: Seq<char>, p: Seq<char>) -> bool {
    p.len() <= s.len() && s.skip(s.len() - p.len()) == p
}

/// `p` occurs in `s` at position `i`.
pub open spec fn occurs_at(s: Seq<char>, p: Seq<char>, i: int) -> bool {
    0 <= i && i + p.len() <= s.len() && s.subrange(i, i + p.len()) == p
}

/// `p` occurs somewhere in `s`.
pub open spec fn has_part(s: Seq<char>, p: Seq<char>) -> bool {
    exists|i: int| occurs_at(s, p, i)
}

/// The position of the first `c` in `s`, or the length of `s` where there is none.
pub open spec fn find_of(s: Seq<char>, c: char) -> nat
    decreases s.len(),
{
    if s.len() == 0 || s[0] == c {
        0
    } else {
        1 + find_of(s.skip(1), c)
    }
}

/// The position reported by `find_of` is the first one that holds `c`.
pub proof fn lemma_find(s: Seq<char>, c: char, k: int)
    requires
        0 <= k <= s.len(),
        forall|i: int| 0 <= i < k ==> s[i] != c,
        k == s.len() || s[k] == c,
    ensures
        find_of(s, c) == k,
    decreases k,
{
    if k > 0 {
        let t = s.skip(1);
        assert forall|i: int| 0 <= i < k - 1 implies t[i] != c by {
            assert(t[i] == s[i + 1]);
        }
        lemma_find(t, c, k - 1);
    }
}

/// No character before `find_of` is `c`, and the one at it is.
pub proof fn lemma_find_is_first(s: Seq<char>, c: char)
    ensures
        find_of(s, c) <= s.len(),
        forall|i: int| 0 <= i < find_of(s, c) ==> s[i] != c,
        find_of(s, c) < s.len() ==> s[find_of(s, c) as int] == c,
    decreases s.len(),
{
    if s.len() > 0 && s[0] != c {
        let t = s.skip(1);
        lemma_find_is_first(t, c);
        assert forall|i: int| 0 <= i < find_of(s, c) implies s[i] != c by {
            if i > 0 {
                assert(s[i] == t[i - 1]);
            }
        }
    }
}

/// The position of the first `c` among `v[from..]`, or the length of `v`.
fn find_from(v: &Vec<char>, from: usize, c: char) -> (r: usize)
    requires
        from <= v@.len(),
    ensures
        from <= r <= v@.len(),
        r == from + find_of(v@.skip(from as int), c),
{
    let mut k: usize = from;
    while k < v.len() && v[k] != c
        invariant
            from <= k <= v@.len(),
            forall|i: int| from <= i < k ==> v@[i] != c,
        decreases v@.len() - k,
    {
        k += 1;
    }
    proof {
        let t = v@.skip(from as int);
        assert forall|i: int| 0 <= i < k - from implies t[i] != c by {
            assert(t[i] == v@[from + i]);
        }
        lemma_find(t, c, k - from);
    }
    k
}

/// The position of the first `c` in `s`, or the number of characters of `s`.
pub fn find(s: &str, c: char) -> (r: usize)
    ensures
        r == find_of(s@, c),
        r <= s@.len(),
{
    let v = chars(s);
    assert(v@.skip(0) =~= v@);
    find_from(&v, 0, c)
}

/// Splits `s` at its first `c` into what stands before and after it.
pub fn split_once<'a>(s: &'a str, c: char) -> (r: Option<(&'a str, &'a str)>)
    ensures
        r is None <==> !s@.contains(c),
        r is Some ==> (r->0).0@ == s@.take(find_of(s@, c) as int) && (r->0).1@ == s@.skip(
            find_of(s@, c) as int + 1,
        ) && find_of(s@, c) < s@.len(),
{
    let n = s.unicode_len();
    let k = find(s, c);
    proof {
        lemma_find_is_first(s@, c);
    }
    if k < n {
        assert(s@[k as int] == c);
        Some((s.substring_char(0, k), s.substring_char(k + 1, n)))
    } else {
        None
    }
}

/// `str::starts_with` for a string pattern.
pub fn starts_with(s: &str, p: &str) -> (r: bool)
    ensures
        r == has_prefix(s@, p@),
{
    let n = p.unicode_len();
    if n > s.unicode_len() {
        return false;
    }
    str_eq(s.substring_char(0, n), p)
}

/// `str::ends_with` for a string pattern.
pub fn ends_with(s: &str, p: &str) -> (r: bool)
    ensures
        r == has_suffix(s@, p@),
{
    let n = p.unicode_len();
    let m = s.unicode_len();
    if n > m {
        return false;
    }
    str_eq(s.substring_char(m - n, m), p)
}

/// `str::strip_prefix` for a string pattern.
pub fn strip_prefix<'a>(s: &'a str, p: &str) -> (r: Option<&'a str>)
    ensures
        r is Some <==> has_prefix(s@, p@),
        r is Some ==> (r->0)@ == s@.skip(p@.len() as int),
{
    if starts_with(s, p) {
        Some(s.substring_char(p.unicode_len(), s.unicode_len()))
    } else {
        None
    }
}

/// `str::strip_suffix` for a string pattern.
pub fn strip_suffix<'a>(s: &'a str, p: &str) -> (r: Option<&'a str>)
    ensures
        r is Some <==> has_suffix(s@, p@),
        r is Some ==> (r->0)@ == s@.take(s@.len() - p@.len()),
{
    if ends_with(s, p) {
        Some(s.substring_char(0, s.unicode_len() - p.unicode_len()))
    } else {
        None
    }
}

/// Whether `p` stands in `v` at position `i`.
fn part_at(v: &Vec<char>, p: &Vec<char>, i: usize) -> (r: bool)
    requires
        i + p@.len() <= v@.len(),
    ensures
        r == occurs_at(v@, p@, i as int),
{
    let mut j: usize = 0;
    while j < p.len()
        invariant
            j <= p@.len(),
            i + p@.len() <= v@.len(),
            v@.len() == v.len(),
            forall|m: int| 0 <= m < j ==> v@[i + m] == p@[m],
        decreases p@.len() - j,
    {
        if v[i + j] != p[j] {
            assert(v@.subrange(i as int, i + p@.len())[j as int] != p@[j as int]);
            return false;
        }
        j += 1;
    }
    assert(v@.subrange(i as int, i + p@.len()) =~= p@);
    true
}

/// `str::contains` for a string pattern.
pub fn contains(s: &str, p: &str) -> (r: bool)
    ensures
        r == has_part(s@, p@),
{
    let v = chars(s);
    let q = chars(p);
    let mut i: usize = 0;
    while i <= v.len() && q.len() <= v.len() - i
        invariant
            v@ == s@,
            q@ == p@,
            i <= v@.len() + 1,
            v@.len() == v.len(),
            forall|m: int| 0 <= m < i ==> !occurs_at(v@, q@, m),
        decreases v@.len() + 1 - i,
    {
        if part_at(&v, &q, i) {
            assert(occurs_at(s@, p@, i as int));
            return true;
        }
        if i == v.len() {
            return false;
        }
        i += 1;
    }
    false
}

/// How many characters other than `c` `s` ends with.
pub open spec fn tail_len(s: Seq<char>, c: char) -> nat
    decreases s.len(),
{
    if s.len() == 0 || s.last() == c {
        0
    } else {
        1 + tail_len(s.drop_last(), c)
    }
}

/// What stands behind the last `c` of `s`; all of `s` where it holds none.
pub open spec fn after_last(s: Seq<char>, c: char) -> Seq<char> {
    s.skip(s.len() - tail_len(s, c))
}

proof fn lemma_tail_len(s: Seq<char>, c: char, k: int)
    requires
        0 <= k <= s.len(),
        forall|i: int| k <= i < s.len() ==> s[i] != c,
        k == 0 || s[k - 1] == c,
    ensures
        tail_len(s, c) == s.len() - k,
    decreases s.len() - k,
{
    if k < s.len() {
        let t = s.drop_last();
        assert forall|i: int| k <= i < t.len() implies t[i] != c by {
            assert(t[i] == s[i]);
        }
        lemma_tail_len(t, c, k);
    }
}

/// The last piece of `s` between the characters `c`.
pub fn last_piece(s: &str, c: char) -> (r: &str)
    ensures
        r@ == after_last(s@, c),
{
    let v = chars(s);
    let mut k: usize = v.len();
    while k > 0 && v[k - 1] != c
        invariant
            v@ == s@,
            k <= v@.len(),
            forall|i: int| k <= i < v@.len() ==> v@[i] != c,
        decreases k,
    {
        k -= 1;
    }
    proof {
        lemma_tail_len(s@, c, k as int);
    }
    s.substring_char(k, v.len())
}

/// The position of the first occurrence of `p` in `s`.
pub open spec fn find_part(s: Seq<char>, p: Seq<char>) -> Option<nat>
    decreases s.len(),
{
    if s.len() < p.len() {
        None
    } else if s.take(p.len() as int) == p {
        Some(0)
    } else if s.len() == 0 {
        None
    } else {
        match find_part(s.skip(1), p) {
            Some(k) => Some(k + 1),
            None => None,
        }
    }
}

/// The position reported by `find_part` is the first at which `p` occurs.
pub proof fn lemma_find_part(s: Seq<char>, p: Seq<char>, k: int)
    requires
        0 <= k,
        forall|i: int| 0 <= i < k ==> !occurs_at(s, p, i),
        occurs_at(s, p, k) || k + p.len() > s.len(),
    ensures
        find_part(s, p) == (if occurs_at(s, p, k) {
            Some(k as nat)
        } else {
            None
        }),
    decreases s.len(),
{
    if s.len() >= p.len() {
        assert(s.take(p.len() as int) =~= s.subrange(0, p.len() as int));
        if k > 0 {
            assert(!occurs_at(s, p, 0));
            if s.len() > 0 {
                let t = s.skip(1);
                assert forall|i: int| 0 <= i < k - 1 implies !occurs_at(t, p, i) by {
                    assert(!occurs_at(s, p, i + 1));
                    if i + p.len() <= t.len() {
                        assert(t.subrange(i, i + p.len()) =~= s.subrange(i + 1, i + 1 + p.len()));
                    }
                }
                if k + p.len() <= s.len() {
                    assert(t.subrange(k - 1, k - 1 + p.len()) =~= s.subrange(k, k + p.len()));
                }
                lemma_find_part(t, p, k - 1);
            }
        }
    }
}

/// The lower-case form of an ASCII letter; any other character as it is.
pub open spec fn ascii_lower(c: char) -> char {
    if 'A' as int <= c as int <= 'Z' as int {
        (c as int + 32) as char
    } else {
        c
    }
}

/// `s` with its ASCII letters in lower case.
pub open spec fn lowered(s: Seq<char>) -> Seq<char> {
    Seq::new(s.len(), |i: int| ascii_lower(s[i]))
}

/// Whether `c` in lower case is `d`.
fn folds_to(c: char, d: char) -> (r: bool)
    ensures
        r == (ascii_lower(c) == d),
{
    let n: u32 = c as u32;
    let m: u32 = d as u32;
    if 65 <= n && n <= 90 {
        n + 32 == m
    } else {
        n == m
    }
}

/// Whether `p` stands in the lower-case form of `v` at position `i`.
fn folded_part_at(v: &Vec<char>, p: &Vec<char>, i: usize) -> (r: bool)
    requires
        i + p@.len() <= v@.len(),
    ensures
        r == occurs_at(lowered(v@), p@, i as int),
{
    let ghost low = lowered(v@);
    let mut j: usize = 0;
    while j < p.len()
        invariant
            j <= p@.len(),
            i + p@.len() <= v@.len(),
            v@.len() == v.len(),
            low == lowered(v@),
            forall|m: int| 0 <= m < j ==> low[i + m] == p@[m],
        decreases p@.len() - j,
    {
        if !folds_to(v[i + j], p[j]) {
            assert(low.subrange(i as int, i + p@.len())[j as int] != p@[j as int]);
            return false;
        }
        j += 1;
    }
    assert(low.subrange(i as int, i + p@.len()) =~= p@);
    true
}

/// The position of the first occurrence of `p` in `s`, letter case of `s` aside.
pub fn find_folded(s: &str, p: &str) -> (r: Option<usize>)
    ensures
        match r {
            Some(k) => find_part(lowered(s@), p@) == Some(k as nat) && k + p@.len() <= s@.len(),
            None => find_part(lowered(s@), p@) is None,
        },
{
    let v = chars(s);
    let q = chars(p);
    let ghost low = lowered(s@);
    let mut i: usize = 0;
    while q.len() <= v.len() - i
        invariant
            v@ == s@,
            q@ == p@,
            low == lowered(s@),
            i <= v@.len(),
            v@.len() == v.len(),
            forall|m: int| 0 <= m < i ==> !occurs_at(low, q@, m),
        decreases v@.len() - i,
    {
        if folded_part_at(&v, &q, i) {
            proof {
                lemma_find_part(low, p@, i as int);
            }
            return Some(i);
        }
        if i == v.len() {
            proof {
                lemma_find_part(low, p@, i as int + 1);
            }
            return None;
        }
        i += 1;
    }
    proof {
        lemma_find_part(low, p@, i as int);
    }
    None
}

// ----------------------------------------------------------------- splitting

/// `s` without one trailing carriage return.
pub open spec fn without_cr(s: Seq<char>) -> Seq<char> {
    if s.len() > 0 && s.last() == '\r' {
        s.drop_last()
    } else {
        s
    }
}

/// The lines of `s`: each ends at a line feed, which is dropped together with a
/// carriage return before it; nothing stands for an empty rest.
pub open spec fn lines_of(s: Seq<char>) -> Seq<Seq<char>>
    decreases s.len(),
{
    if s.len() == 0 {
        seq![]
    } else {
        let k = find_of(s, '\n');
        if k >= s.len() {
            seq![s]
        } else {
            seq![without_cr(s.take(k as int))] + lines_of(s.skip(k as int + 1))
        }
    }
}

/// `str::lines`.
pub fn lines(s: &str) -> (r: Vec<&str>)
    ensures
        strs(r@) == lines_of(s@),
{
    let v = chars(s);
    let n = v.len();
    let mut out: Vec<&str> = Vec::new();
    let mut pos: usize = 0;
    assert(s@.skip(0) =~= s@);
    while pos < n
        invariant
            v@ == s@,
            n == v@.len(),
            pos <= n,
            strs(out@) + lines_of(s@.skip(pos as int)) == lines_of(s@),
        decreases n - pos,
    {
        let k = find_from(&v, pos, '\n');
        let ghost rest = s@.skip(pos as int);
        let ghost before = out@;
        proof {
            lemma_find_is_first(rest, '\n');
        }
        if k == n {
            out.push(s.substring_char(pos, n));
            proof {
                assert(rest =~= s@.subrange(pos as int, n as int));
                assert(strs(out@) =~= strs(before).push(rest));
                assert(lines_of(rest) =~= seq![rest]);
                assert(s@.skip(n as int) =~= Seq::<char>::empty());
                assert(strs(before) + seq![rest] =~= strs(before).push(rest) + seq![]);
            }
            pos = n;
        } else {
            let end = if k > pos && v[k - 1] == '\r' {
                k - 1
            } else {
                k
            };
            out.push(s.substring_char(pos, end));
            proof {
                let piece = rest.take(k - pos);
                assert(s@.subrange(pos as int, end as int) =~= without_cr(piece));
                assert(strs(out@) =~= strs(before).push(without_cr(piece)));
                assert(rest.skip(k - pos + 1) =~= s@.skip(k + 1));
                assert(strs(before) + (seq![without_cr(piece)] + lines_of(s@.skip(k + 1)))
                    =~= strs(out@) + lines_of(s@.skip(k + 1)));
            }
            pos = k + 1;
        }
    }
    proof {
        assert(s@.skip(n as int) =~= Seq::<char>::empty());
        assert(strs(out@) + Seq::<Seq<char>>::empty() =~= strs(out@));
    }
    out
}

/// How many characters other than white space `s` starts with.
pub open spec fn word_len(s: Seq<char>) -> nat
    decreases s.len(),
{
    if s.len() > 0 && !is_white(s[0]) {
        1 + word_len(s.skip(1))
    } else {
        0
    }
}

proof fn lemma_word_len(s: Seq<char>, k: int)
    requires
        0 <= k <= s.len(),
        forall|i: int| 0 <= i < k ==> !is_white(s[i]),
        k == s.len() || is_white(s[k]),
    ensures
        word_len(s) == k,
    decreases k,
{
    if k > 0 {
        let t = s.skip(1);
        assert forall|i: int| 0 <= i < k - 1 implies !is_white(t[i]) by {
            assert(t[i] == s[i + 1]);
        }
        lemma_word_len(t, k - 1);
    }
}

/// What `lead` and `word_len` count stays within the text.
pub proof fn lemma_count_bounds(s: Seq<char>)
    ensures
        lead(s) <= s.len(),
        word_len(s) <= s.len(),
        s.len() > 0 && !is_white(s[0]) ==> word_len(s) > 0,
        lead(s) < s.len() ==> !is_white(s[lead(s) as int]),
    decreases s.len(),
{
    if s.len() > 0 {
        lemma_count_bounds(s.skip(1));
    }
}

/// The maximal runs of characters other than white space, in order.
pub open spec fn words_of(s: Seq<char>) -> Seq<Seq<char>>
    decreases s.len(),
{
    let t = trimmed_start(s);
    if t.len() == 0 || word_len(t) == 0 || lead(s) > s.len() {
        seq![]
    } else {
        proof {
            lemma_count_bounds(s);
            lemma_count_bounds(t);
        }
        seq![t.take(word_len(t) as int)] + words_of(t.skip(word_len(t) as int))
    }
}

/// `str::split_whitespace`.
pub fn words(s: &str) -> (r: Vec<&str>)
    ensures
        strs(r@) == words_of(s@),
{
    let v = chars(s);
    let n = v.len();
    let mut out: Vec<&str> = Vec::new();
    let mut pos: usize = 0;
    let mut done = false;
    assert(s@.skip(0) =~= s@);
    while !done
        invariant
            v@ == s@,
            n == v@.len(),
            pos <= n,
            !done ==> strs(out@) + words_of(s@.skip(pos as int)) == words_of(s@),
            done ==> strs(out@) == words_of(s@),
        decreases n - pos + (if done { 0int } else { 1int }),
    {
        let ghost rest = s@.skip(pos as int);
        let ghost before = out@;
        let mut a: usize = pos;
        while a < n && white(v[a])
            invariant
                v@ == s@,
                n == v@.len(),
                pos <= a <= n,
                forall|i: int| pos <= i < a ==> is_white(v@[i]),
            decreases n - a,
        {
            a += 1;
        }
        let mut b: usize = a;
        while b < n && !white(v[b])
            invariant
                v@ == s@,
                n == v@.len(),
                a <= b <= n,
                forall|i: int| a <= i < b ==> !is_white(v@[i]),
            decreases n - b,
        {
            b += 1;
        }
        proof {
            lemma_lead(rest, a - pos);
            assert(trimmed_start(rest) =~= s@.skip(a as int));
            lemma_word_len(s@.skip(a as int), b - a);
        }
        if a == b {
            proof {
                lemma_count_bounds(s@.skip(a as int));
                assert(words_of(rest) =~= Seq::<Seq<char>>::empty());
                assert(strs(out@) + Seq::<Seq<char>>::empty() =~= strs(out@));
            }
            done = true;
        } else {
            out.push(s.substring_char(a, b));
            proof {
                let t = s@.skip(a as int);
                assert(t.take(b - a) =~= s@.subrange(a as int, b as int));
                assert(t.skip(b - a) =~= s@.skip(b as int));
                assert(strs(out@) =~= strs(before).push(t.take(b - a)));
                assert(strs(before) + (seq![t.take(b - a)] + words_of(s@.skip(b as int)))
                    =~= strs(out@) + words_of(s@.skip(b as int)));
            }
            pos = b;
        }
    }
    out
}

/// The first word of `s`, or `None` where `s` holds none.
pub open spec fn first_word_of(s: Seq<char>) -> Option<Seq<char>> {
    let w = words_of(s);
    if w.len() == 0 {
        None
    } else {
        Some(w[0])
    }
}

/// The first white-space separated word of `s`.
pub fn first_word(s: &str) -> (r: Option<&str>)
    ensures
        opt_str(r) == first_word_of(s@),
{
    let w = words(s);
    if w.len() == 0 {
        None
    } else {
        assert(strs(w@)[0] == w@[0]@);
        Some(w[0])
    }
}

/// A word that stands first, with nothing or white space behind it, is the first word.
pub proof fn a_word_is_found(w: Seq<char>, rest: Seq<char>)
    requires
        w.len() > 0,
        forall|i: int| 0 <= i < w.len() ==> !is_white(#[trigger] w[i]),
        rest.len() > 0 ==> is_white(rest[0]),
    ensures
        first_word_of(w + rest) == Some(w),
{
    let s = w + rest;
    assert(s[0] == w[0]);
    lemma_lead(s, 0);
    assert(trimmed_start(s) =~= s);
    assert forall|i: int| 0 <= i < w.len() implies !is_white(s[i]) by {
        assert(s[i] == w[i]);
    }
    if rest.len() > 0 {
        assert(s[w.len() as int] == rest[0]);
    }
    lemma_word_len(s, w.len() as int);
    assert(s.take(w.len() as int) =~= w);
}

/// The pieces of `s` between the characters `c`; there is always at least one.
pub open spec fn split_of(s: Seq<char>, c: char) -> Seq<Seq<char>>
    decreases s.len(),
{
    let k = find_of(s, c);
    if k >= s.len() {
        seq![s]
    } else {
        seq![s.take(k as int)] + split_of(s.skip(k as int + 1), c)
    }
}

/// `str::split` for a character.
pub fn split(s: &str, c: char) -> (r: Vec<&str>)
    ensures
        strs(r@) == split_of(s@, c),
{
    let v = chars(s);
    let n = v.len();
    let mut out: Vec<&str> = Vec::new();
    let mut pos: usize = 0;
    assert(s@.skip(0) =~= s@);
    loop
        invariant
            v@ == s@,
            n == v@.len(),
            pos <= n,
            strs(out@) + split_of(s@.skip(pos as int), c) == split_of(s@, c),
        decreases n - pos,
    {
        let k = find_from(&v, pos, c);
        let ghost rest = s@.skip(pos as int);
        let ghost before = out@;
        out.push(s.substring_char(pos, k));
        proof {
            lemma_find_is_first(rest, c);
            assert(rest.take(k - pos) =~= s@.subrange(pos as int, k as int));
            assert(strs(out@) =~= strs(before).push(rest.take(k - pos)));
        }
        if k == n {
            proof {
                assert(rest.take(k - pos) =~= rest);
                assert(strs(before) + seq![rest] =~= strs(out@));
            }
            return out;
        }
        proof {
            assert(rest.skip(k - pos + 1) =~= s@.skip(k + 1));
            assert(strs(before) + (seq![rest.take(k - pos)] + split_of(s@.skip(k + 1), c))
                =~= strs(out@) + split_of(s@.skip(k + 1), c));
        }
        pos = k + 1;
    }
}

// ------------------------------------------------------------------- joining

/// The pieces one after another, with `sep` between neighbours.
pub open spec fn joined(parts: Seq<Seq<char>>, sep: Seq<char>) -> Seq<char>
    decreases parts.len(),
{
    if parts.len() == 0 {
        seq![]
    } else if parts.len() == 1 {
        parts[0]
    } else {
        joined(parts.drop_last(), sep) + sep + parts.last()
    }
}

/// `[String]::join`.
pub fn join(parts: &Vec<String>, sep: &str) -> (r: String)
    ensures
        r@ == joined(strings(parts@), sep@),
{
    let mut out = String::new();
    let mut i: usize = 0;
    while i < parts.len()
        invariant
            i <= parts@.len(),
            out@ == joined(strings(parts@.take(i as int)), sep@),
        decreases parts@.len() - i,
    {
        proof {
            let next = strings(parts@.take(i + 1));
            assert(next.drop_last() =~= strings(parts@.take(i as int)));
            assert(next.last() == parts@[i as int]@);
            if i == 0 {
                assert(next =~= seq![parts@[0]@]);
            }
        }
        if i > 0 {
            out.append(sep);
        }
        out.append(parts[i].as_str());
        i += 1;
    }
    assert(parts@.take(i as int) =~= parts@);
    out
}

proof fn lemma_joined_front(parts: Seq<Seq<char>>, sep: Seq<char>)
    requires
        parts.len() >= 2,
    ensures
        joined(parts, sep) == parts[0] + sep + joined(parts.skip(1), sep),
    decreases parts.len(),
{
    let init = parts.drop_last();
    if parts.len() == 2 {
        assert(init =~= seq![parts[0]]);
        assert(parts.skip(1) =~= seq![parts[1]]);
        assert(joined(init, sep) == parts[0]);
        assert(joined(parts.skip(1), sep) == parts[1]);
    } else {
        lemma_joined_front(init, sep);
        let tail = parts.skip(1);
        assert(init.skip(1) =~= tail.drop_last());
        assert(init[0] == parts[0]);
        assert(tail.last() == parts.last());
        assert(joined(tail, sep) == joined(tail.drop_last(), sep) + sep + tail.last());
        assert(joined(parts, sep) == joined(init, sep) + sep + parts.last());
        assert(parts[0] + sep + joined(init.skip(1), sep) + sep + parts.last() =~= parts[0] + sep
            + (joined(init.skip(1), sep) + sep + parts.last()));
    }
}

/// Pieces that do not hold the separator come apart again as they were joined.
pub proof fn split_undoes_join(parts: Seq<Seq<char>>, c: char)
    requires
        parts.len() > 0,
        forall|i: int| 0 <= i < parts.len() ==> !(#[trigger] parts[i]).contains(c),
    ensures
        split_of(joined(parts, seq![c]), c) == parts,
    decreases parts.len(),
{
    let head = parts[0];
    assert(forall|i: int| 0 <= i < head.len() ==> head.contains(head[i]));
    if parts.len() == 1 {
        lemma_find(head, c, head.len() as int);
        assert(parts =~= seq![head]);
    } else {
        let rest = parts.skip(1);
        lemma_joined_front(parts, seq![c]);
        let all = joined(parts, seq![c]);
        let k = head.len() as int;
        assert(all[k] == c);
        assert forall|i: int| 0 <= i < k implies all[i] != c by {
            assert(all[i] == head[i]);
        }
        lemma_find(all, c, k);
        assert(all.take(k) =~= head);
        assert(all.skip(k + 1) =~= joined(rest, seq![c]));
        assert forall|i: int| 0 <= i < rest.len() implies !(#[trigger] rest[i]).contains(c) by {
            assert(rest[i] == parts[i + 1]);
        }
        split_undoes_join(rest, c);
        assert(parts =~= seq![head] + rest);
    }
}

// ------------------------------------------------------------------ ordering

/// Strict lexicographic order by code point, which is the order of `str`.
pub open spec fn text_less(a: Seq<char>, b: Seq<char>) -> bool
    decreases a.len(),
{
    if b.len() == 0 {
        false
    } else if a.len() == 0 {
        true
    } else if a[0] != b[0] {
        (a[0] as int) < (b[0] as int)
    } else {
        text_less(a.skip(1), b.skip(1))
    }
}

/// The code point of `c`.
fn code(c: char) -> (r: u32)
    ensures
        r as int == c as int,
{
    c as u32
}

/// Whether `a` sorts before `b`.
pub fn less(a: &str, b: &str) -> (r: bool)
    ensures
        r == text_less(a@, b@),
{
    let v = chars(a);
    let w = chars(b);
    let mut i: usize = 0;
    assert(a@.skip(0) =~= a@ && b@.skip(0) =~= b@);
    while i < v.len() && i < w.len()
        invariant
            v@ == a@,
            w@ == b@,
            i <= v@.len(),
            i <= w@.len(),
            text_less(a@, b@) == text_less(a@.skip(i as int), b@.skip(i as int)),
        decreases v@.len() - i,
    {
        let x: char = v[i];
        let y: char = w[i];
        if x != y {
            return code(x) < code(y);
        }
        assert(a@.skip(i as int).skip(1) =~= a@.skip(i + 1));
        assert(b@.skip(i as int).skip(1) =~= b@.skip(i + 1));
        i += 1;
    }
    i < w.len()
}

/// No text sorts before itself.
pub proof fn lemma_text_irreflexive(a: Seq<char>)
    ensures
        !text_less(a, a),
    decreases a.len(),
{
    if a.len() > 0 {
        lemma_text_irreflexive(a.skip(1));
    }
}

/// Of two different texts exactly one sorts before the other.
pub proof fn lemma_text_total(a: Seq<char>, b: Seq<char>)
    ensures
        a == b || text_less(a, b) || text_less(b, a),
        !(text_less(a, b) && text_less(b, a)),
    decreases a.len(),
{
    if a.len() == 0 || b.len() == 0 {
        if a.len() == b.len() {
            assert(a =~= b);
        }
    } else if a[0] == b[0] {
        lemma_text_total(a.skip(1), b.skip(1));
        if a.skip(1) == b.skip(1) {
            assert(a =~= seq![a[0]] + a.skip(1));
            assert(b =~= seq![b[0]] + b.skip(1));
        }
    }
}

/// The order of text is transitive.
pub proof fn lemma_text_transitive(a: Seq<char>, b: Seq<char>, c: Seq<char>)
    requires
        text_less(a, b),
        text_less(b, c),
    ensures
        text_less(a, c),
    decreases a.len(),
{
    if a.len() > 0 && a[0] == b[0] && b[0] == c[0] {
        lemma_text_transitive(a.skip(1), b.skip(1), c.skip(1));
    }
}

// ------------------------------------------------------------------ messages

/// What `{:?}` writes for a string.
pub uninterp spec fn debug_of(s: Seq<char>) -> Seq<char>;

/// Formats `s` with `<str as std::fmt::Debug>::fmt`. Trusted: the outcome is a
/// function of the characters of `s` alone; what it is, quoted and escaped, is left
/// to the standard library.
#[verifier::external_body]
pub(crate) fn debug_text(s: &str) -> (r: String)
    ensures
        r@ == debug_of(s@),
{
    format!("{s:?}")
}

/// `prefix` followed by the quoted form of `s`.
pub fn quoted(prefix: &str, s: &str) -> (r: String)
    ensures
        r@ == prefix@ + debug_of(s@),
{
    let mut out = String::from_str(prefix);
    out.append(debug_text(s).as_str());
    out
}

/// Two strings one after the other.
pub fn concat2(a: &str, b: &str) -> (r: String)
    ensures
        r@ == a@ + b@,
{
    let mut out = String::from_str(a);
    out.append(b);
    out
}

/// Three strings one after the other.
pub fn concat3(a: &str, b: &str, c: &str) -> (r: String)
    ensures
        r@ == a@ + b@ + c@,
{
    let mut out = String::from_str(a);
    out.append(b);
    out.append(c);
    out
}

// ------------------------------------------------------------------- columns

/// `n` spaces.
pub open spec fn spaces(n: int) -> Seq<char> {
    Seq::new(
        if n > 0 {
            n as nat
        } else {
            0
        },
        |i: int| ' ',
    )
}

/// `s` with spaces behind it, up to a width.
pub open spec fn padded(s: Seq<char>, width: int) -> Seq<char> {
    s + spaces(width - s.len())
}

/// `{:<width$}` for a string.
pub fn pad(s: &str, width: usize) -> (r: String)
    ensures
        r@ == padded(s@, width as int),
{
    let mut out = String::from_str(s);
    let n = s.unicode_len();
    let mut i: usize = n;
    assert(out@ =~= s@ + spaces(0));
    while i < width
        invariant
            n == s@.len(),
            n <= i,
            i <= width || i == n,
            out@ == s@ + spaces(i - n),
        decreases width - i,
    {
        out.append(" ");
        proof {
            reveal_strlit(" ");
            assert(out@ =~= s@ + spaces(i + 1 - n));
        }
        i += 1;
    }
    assert(out@ =~= padded(s@, width as int));
    out
}

/// Without the characters `c` at the end.
pub open spec fn without_tail(s: Seq<char>, c: char) -> Seq<char>
    decreases s.len(),
{
    if s.len() > 0 && s.last() == c {
        without_tail(s.drop_last(), c)
    } else {
        s
    }
}

/// `str::trim_end_matches` for a character.
pub fn trim_end_char(s: &str, c: char) -> (r: &str)
    ensures
        r@ == without_tail(s@, c),
{
    let v = chars(s);
    let mut n: usize = v.len();
    assert(s@.take(n as int) =~= s@);
    while n > 0 && v[n - 1] == c
        invariant
            v@ == s@,
            n <= v@.len(),
            without_tail(s@, c) == without_tail(s@.take(n as int), c),
        decreases n,
    {
        assert(s@.take(n as int).drop_last() =~= s@.take(n - 1));
        n -= 1;
    }
    s.substring_char(0, n)
}

} // verus!
