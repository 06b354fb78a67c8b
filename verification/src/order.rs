//! Stable sorting by a given order, and its result in closed form.
use vstd::prelude::*;

use crate::text;

verus! {

/// `x` put into `s`, behind everything that it does not come before.
pub open spec fn place(before: spec_fn(int, int) -> bool, s: Seq<int>, x: int) -> Seq<int>
    decreases s.len(),
{
    if s.len() > 0 && before(x, s.last()) {
        place(before, s.drop_last(), x).push(s.last())
    } else {
        s.push(x)
    }
}

/// The positions below `n` in order; of two that neither comes before the other,
/// the smaller position stands first.
pub open spec fn order(before: spec_fn(int, int) -> bool, n: int) -> Seq<int>
    decreases n,
{
    if n <= 0 {
        seq![]
    } else {
        place(before, order(before, n - 1), n - 1)
    }
}

/// `before` never relates a position to itself, and is transitive also through
/// positions that neither comes before the other.
pub open spec fn is_order(before: spec_fn(int, int) -> bool) -> bool {
    &&& forall|a: int| !#[trigger] before(a, a)
    &&& forall|a: int, b: int| #[trigger] before(a, b) ==> !before(b, a)
    &&& forall|a: int, b: int, c: int|
        !#[trigger] before(b, a) && !#[trigger] before(c, b) ==> !before(c, a)
}

/// Nothing comes before something that stands ahead of it.
pub open spec fn in_order(before: spec_fn(int, int) -> bool, s: Seq<int>) -> bool {
    forall|a: int, b: int| 0 <= a < b < s.len() ==> !before(#[trigger] s[b], #[trigger] s[a])
}

proof fn lemma_place(before: spec_fn(int, int) -> bool, s: Seq<int>, x: int, pos: int)
    requires
        0 <= pos <= s.len(),
        forall|j: int| pos <= j < s.len() ==> before(x, #[trigger] s[j]),
        pos == 0 || !before(x, s[pos - 1]),
    ensures
        place(before, s, x) == s.insert(pos, x),
    decreases s.len(),
{
    if s.len() > 0 && before(x, s.last()) {
        if pos == s.len() {
            assert(s[pos - 1] == s.last());
        }
        let init = s.drop_last();
        assert forall|j: int| pos <= j < init.len() implies before(x, #[trigger] init[j]) by {
            assert(init[j] == s[j]);
        }
        lemma_place(before, init, x, pos);
        assert(s.insert(pos, x) =~= init.insert(pos, x).push(s.last()));
    } else {
        if pos < s.len() {
            assert(s[s.len() - 1] == s.last());
        }
        assert(s.insert(pos, x) =~= s.push(x));
    }
}

proof fn lemma_place_keeps(before: spec_fn(int, int) -> bool, s: Seq<int>, x: int)
    ensures
        place(before, s, x).to_multiset() == s.to_multiset().insert(x),
        place(before, s, x).len() == s.len() + 1,
    decreases s.len(),
{
    broadcast use vstd::seq_lib::group_to_multiset_ensures;

    if s.len() > 0 && before(x, s.last()) {
        lemma_place_keeps(before, s.drop_last(), x);
        assert(s =~= s.drop_last().push(s.last()));
        assert(place(before, s, x).to_multiset() =~= s.to_multiset().insert(x));
    }
}

/// The order holds each position once.
pub proof fn order_is_complete(before: spec_fn(int, int) -> bool, n: int)
    requires
        0 <= n,
    ensures
        order(before, n).len() == n,
        order(before, n).to_multiset() == Seq::new(n as nat, |i: int| i).to_multiset(),
        forall|i: int| 0 <= i < n ==> 0 <= #[trigger] order(before, n)[i] < n,
    decreases n,
{
    broadcast use vstd::seq_lib::group_to_multiset_ensures;

    if n > 0 {
        order_is_complete(before, n - 1);
        lemma_place_keeps(before, order(before, n - 1), n - 1);
        assert(Seq::new(n as nat, |i: int| i) =~= Seq::new((n - 1) as nat, |i: int| i).push(n - 1));
        let s = order(before, n);
        let t = Seq::new(n as nat, |i: int| i);
        assert forall|i: int| 0 <= i < n implies 0 <= #[trigger] s[i] < n by {
            assert(s.contains(s[i]));
            assert(s.to_multiset().count(s[i]) > 0);
            assert(t.to_multiset().count(s[i]) > 0);
            assert(t.contains(s[i]));
        }
    } else {
        assert(Seq::new(0, |i: int| i) =~= order(before, 0));
    }
}

proof fn lemma_place_sorted(before: spec_fn(int, int) -> bool, s: Seq<int>, x: int)
    requires
        is_order(before),
        in_order(before, s),
    ensures
        in_order(before, place(before, s, x)),
    decreases s.len(),
{
    broadcast use vstd::seq_lib::group_to_multiset_ensures;

    let r = place(before, s, x);
    if s.len() > 0 && before(x, s.last()) {
        let init = s.drop_last();
        assert forall|a: int, b: int| 0 <= a < b < init.len() implies !before(
            #[trigger] init[b],
            #[trigger] init[a],
        ) by {
            assert(init[a] == s[a] && init[b] == s[b]);
        }
        lemma_place_sorted(before, init, x);
        lemma_place_keeps(before, init, x);
        let ri = place(before, init, x);
        assert forall|a: int, b: int| 0 <= a < b < r.len() implies !before(
            #[trigger] r[b],
            #[trigger] r[a],
        ) by {
            if b < ri.len() {
                assert(r[a] == ri[a] && r[b] == ri[b]);
            } else {
                assert(ri.contains(ri[a]));
                assert(ri.to_multiset().count(ri[a]) > 0);
                if ri[a] != x {
                    assert(init.to_multiset().count(ri[a]) > 0);
                    assert(init.contains(ri[a]));
                    let m = choose|m: int| 0 <= m < init.len() && init[m] == ri[a];
                    assert(s[m] == ri[a]);
                    assert(s[s.len() - 1] == s.last());
                }
            }
        }
    } else {
        assert forall|a: int, b: int| 0 <= a < b < r.len() implies !before(
            #[trigger] r[b],
            #[trigger] r[a],
        ) by {
            if b < s.len() {
                assert(r[a] == s[a] && r[b] == s[b]);
            } else {
                assert(r[a] == s[a] && r[b] == x);
                if a < s.len() - 1 {
                    assert(!before(s[s.len() - 1], s[a]));
                }
            }
        }
    }
}

/// The order is in order.
pub proof fn order_is_sorted(before: spec_fn(int, int) -> bool, n: int)
    requires
        is_order(before),
    ensures
        in_order(before, order(before, n)),
    decreases n,
{
    if n > 0 {
        order_is_sorted(before, n - 1);
        lemma_place_sorted(before, order(before, n - 1), n - 1);
    }
}

/// The positions that a list of machine integers holds.
pub open spec fn positions(s: Seq<usize>) -> Seq<int> {
    Seq::new(s.len(), |i: int| s[i] as int)
}

/// Sorts the positions below `n` by the order that `f` computes.
pub(crate) fn sort_positions<F: Fn(usize, usize) -> bool>(
    n: usize,
    f: F,
    Ghost(before): Ghost<spec_fn(int, int) -> bool>,
) -> (r: Vec<usize>)
    requires
        forall|a: usize, b: usize| a < n && b < n ==> #[trigger] call_requires(f, (a, b)),
        forall|a: usize, b: usize, c: bool|
            #[trigger] call_ensures(f, (a, b), c) && a < n && b < n ==> c == before(
                a as int,
                b as int,
            ),
    ensures
        positions(r@) == order(before, n as int),
        forall|i: int| 0 <= i < r@.len() ==> (#[trigger] r@[i]) < n,
        r@.len() == n,
{
    let mut out: Vec<usize> = Vec::new();
    let mut k: usize = 0;
    assert(positions(out@) =~= order(before, 0));
    while k < n
        invariant
            k <= n,
            forall|a: usize, b: usize| a < n && b < n ==> #[trigger] call_requires(f, (a, b)),
            forall|a: usize, b: usize, c: bool|
                #[trigger] call_ensures(f, (a, b), c) && a < n && b < n ==> c == before(
                    a as int,
                    b as int,
                ),
            positions(out@) == order(before, k as int),
            out@.len() == k,
            forall|i: int| 0 <= i < out@.len() ==> (#[trigger] out@[i]) < n,
        decreases n - k,
    {
        let mut pos: usize = out.len();
        let mut going: bool = true;
        while pos > 0 && going
            invariant
                pos <= out@.len(),
                k < n,
                forall|a: usize, b: usize| a < n && b < n ==> #[trigger] call_requires(f, (a, b)),
                forall|a: usize, b: usize, c: bool|
                    #[trigger] call_ensures(f, (a, b), c) && a < n && b < n ==> c == before(
                        a as int,
                        b as int,
                    ),
                forall|i: int| 0 <= i < out@.len() ==> (#[trigger] out@[i]) < n,
                forall|j: int|
                    pos <= j < out@.len() ==> before(k as int, #[trigger] positions(out@)[j]),
                !going ==> pos > 0 && !before(k as int, positions(out@)[pos - 1]),
            decreases pos + (if going { 1int } else { 0int }),
        {
            let q: usize = out[pos - 1];
            if f(k, q) {
                assert(positions(out@)[pos - 1] == q as int);
                pos -= 1;
            } else {
                going = false;
            }
        }
        let ghost seen = positions(out@);
        proof {
            lemma_place(before, seen, k as int, pos as int);
        }
        out.insert(pos, k);
        assert(positions(out@) =~= seen.insert(pos as int, k as int));
        k += 1;
    }
    out
}

// ------------------------------------------------------------- sorting texts

/// The order of positions by the texts that stand there.
pub open spec fn by_text(keys: Seq<Seq<char>>) -> spec_fn(int, int) -> bool {
    |a: int, b: int| text::text_less(keys[a], keys[b])
}

/// The texts in order.
pub open spec fn sorted_texts(keys: Seq<Seq<char>>) -> Seq<Seq<char>> {
    let at = order(by_text(keys), keys.len() as int);
    Seq::new(keys.len(), |i: int| keys[at[i]])
}

/// Ordering positions by text is an order.
pub proof fn by_text_is_order(keys: Seq<Seq<char>>)
    ensures
        is_order(by_text(keys)),
{
    let before = by_text(keys);
    assert forall|a: int| !#[trigger] before(a, a) by {
        text::lemma_text_irreflexive(keys[a]);
    }
    assert forall|a: int, b: int| #[trigger] before(a, b) implies !before(b, a) by {
        text::lemma_text_total(keys[a], keys[b]);
    }
    assert forall|a: int, b: int, c: int|
        !#[trigger] before(b, a) && !#[trigger] before(c, b) implies !before(c, a) by {
        text::lemma_text_total(keys[a], keys[b]);
        text::lemma_text_total(keys[b], keys[c]);
        text::lemma_text_total(keys[a], keys[c]);
        if before(c, a) {
            if text::text_less(keys[a], keys[b]) {
                text::lemma_text_transitive(keys[c], keys[a], keys[b]);
            }
        }
    }
}

/// Sorts texts by code point.
pub fn sort_texts(keys: &Vec<String>) -> (r: Vec<String>)
    ensures
        text::strings(r@) == sorted_texts(text::strings(keys@)),
{
    let ghost all = text::strings(keys@);
    let f = |a: usize, b: usize| -> (c: bool)
        requires
            a < keys@.len(),
            b < keys@.len(),
        ensures
            c == text::text_less(keys@[a as int]@, keys@[b as int]@),
        { text::less(keys[a].as_str(), keys[b].as_str()) };
    let at = sort_positions(keys.len(), f, Ghost(by_text(all)));
    let mut out: Vec<String> = Vec::new();
    let mut i: usize = 0;
    while i < at.len()
        invariant
            i <= at@.len(),
            at@.len() == keys@.len(),
            out@.len() == i,
            forall|k: int| 0 <= k < at@.len() ==> (#[trigger] at@[k]) < keys@.len(),
            forall|k: int| 0 <= k < i ==> (#[trigger] out@[k])@ == keys@[at@[k] as int]@,
        decreases at@.len() - i,
    {
        out.push(keys[at[i]].clone());
        i += 1;
    }
    proof {
        let want = sorted_texts(all);
        assert forall|k: int| 0 <= k < out@.len() implies text::strings(out@)[k] == want[k] by {
            assert(positions(at@)[k] == at@[k] as int);
            assert(out@[k]@ == keys@[at@[k] as int]@);
        }
        assert(text::strings(out@) =~= want);
    }
    out
}

/// Sorted texts are in order, and they are the texts that were sorted.
pub proof fn sorted_texts_hold(keys: Seq<Seq<char>>)
    ensures
        sorted_texts(keys).len() == keys.len(),
        forall|a: int, b: int|
            0 <= a < b < keys.len() ==> !text::text_less(
                #[trigger] sorted_texts(keys)[b],
                #[trigger] sorted_texts(keys)[a],
            ),
        forall|x: Seq<char>| #[trigger] sorted_texts(keys).contains(x) <==> keys.contains(x),
{
    broadcast use vstd::seq_lib::group_to_multiset_ensures;

    let before = by_text(keys);
    let n = keys.len() as int;
    let at = order(before, n);
    let s = sorted_texts(keys);
    by_text_is_order(keys);
    order_is_sorted(before, n);
    order_is_complete(before, n);
    assert forall|a: int, b: int| 0 <= a < b < n implies !text::text_less(
        #[trigger] s[b],
        #[trigger] s[a],
    ) by {
        assert(!before(at[b], at[a]));
    }
    let ids = Seq::new(n as nat, |i: int| i);
    assert forall|x: Seq<char>| #[trigger] s.contains(x) <==> keys.contains(x) by {
        if s.contains(x) {
            let k = choose|k: int| 0 <= k < s.len() && s[k] == x;
            assert(0 <= at[k] < n);
            assert(keys[at[k]] == x);
        }
        if keys.contains(x) {
            let k = choose|k: int| 0 <= k < keys.len() && keys[k] == x;
            assert(ids[k] == k);
            assert(ids.contains(k));
            assert(ids.to_multiset().count(k) > 0);
            assert(at.to_multiset().count(k) > 0);
            assert(at.contains(k));
            let m = choose|m: int| 0 <= m < at.len() && at[m] == k;
            assert(s[m] == x);
        }
    }
}

/// Sorting texts of which none occurs twice gives none twice.
pub proof fn sorting_adds_no_repeats(keys: Seq<Seq<char>>)
    requires
        keys.no_duplicates(),
    ensures
        sorted_texts(keys).no_duplicates(),
{
    let n = keys.len() as int;
    let at = order(by_text(keys), n);
    let ids = Seq::new(n as nat, |i: int| i);
    order_is_complete(by_text(keys), n);
    ids.lemma_multiset_has_no_duplicates();
    at.lemma_multiset_has_no_duplicates_conv();
}

} // verus!
