//! Fingerprints: what says something else has another one.
use vstd::prelude::*;

use crate::order;
use crate::profile_store;
use crate::profile_store::SourceView;
use crate::telemetry;
use crate::telemetry::{FrameCtxView, FrameView};
use crate::text;

verus! {

/// A step of the hash keeps apart what was apart before it, and what it takes in.
pub proof fn steps_keep_things_apart(a: u64, b: u64, w: u64)
    requires
        a != b,
    ensures
        telemetry::mixed(a, w) != telemetry::mixed(b, w),
        telemetry::mixed(w, a) != telemetry::mixed(w, b),
{
    let (x, y) = (a ^ w, b ^ w);
    assert(a ^ w != b ^ w) by (bit_vector)
        requires
            a != b,
    ;
    assert(w ^ a == a ^ w && w ^ b == b ^ w) by (bit_vector);
    lemma_factor_undone(x);
    lemma_factor_undone(y);
}

/// The factor of the hash can be undone.
proof fn lemma_factor_undone(x: u64)
    ensures
        ({
            let m = 0x1_0000_0000_0000_0000int;
            let r = x.wrapping_mul(0x0000_0100_0000_01b3);
            (r as int * 14886173955864302971int) % m == x as int
        }),
{
    let m = 0x1_0000_0000_0000_0000int;
    let p = 0x0000_0100_0000_01b3int;
    let q = 14886173955864302971int;
    let v = x as int;
    let r = x.wrapping_mul(0x0000_0100_0000_01b3) as int;
    assert(r == (v * p) % m);
    vstd::arithmetic::div_mod::lemma_mul_mod_noop_left(v * p, q, m);
    assert(v * p * q == m * (887285111055int * v) + v) by (nonlinear_arith)
        requires
            p == 0x0000_0100_0000_01b3int,
            q == 14886173955864302971int,
            m == 0x1_0000_0000_0000_0000int,
    ;
    vstd::arithmetic::div_mod::lemma_mod_multiples_vanish(887285111055int * v, v, m);
}

/// Two texts that differ in one character alone.
pub open spec fn one_apart(s: Seq<char>, t: Seq<char>) -> bool {
    s.len() == t.len() && exists|i: int| #[trigger] differ_at(s, t, i)
}

pub open spec fn differ_at(s: Seq<char>, t: Seq<char>, i: int) -> bool {
    &&& 0 <= i < s.len()
    &&& s[i] != t[i]
    &&& forall|j: int| 0 <= j < s.len() && j != i ==> #[trigger] s[j] == t[j]
}

proof fn lemma_chars_apart(a: u64, b: u64, s: Seq<char>)
    requires
        a != b,
    ensures
        telemetry::hash_chars(a, s) != telemetry::hash_chars(b, s),
        telemetry::hash_text(a, s) != telemetry::hash_text(b, s),
    decreases s.len(),
{
    if s.len() > 0 {
        lemma_chars_apart(a, b, s.drop_last());
        steps_keep_things_apart(
            telemetry::hash_chars(a, s.drop_last()),
            telemetry::hash_chars(b, s.drop_last()),
            s.last() as u64,
        );
    }
    steps_keep_things_apart(
        telemetry::hash_chars(a, s),
        telemetry::hash_chars(b, s),
        0x11_0000,
    );
}

proof fn lemma_codes_differ(a: char, b: char)
    requires
        a != b,
    ensures
        a as u64 != b as u64,
{
}

proof fn lemma_change_shows(h: u64, s: Seq<char>, t: Seq<char>, i: int)
    requires
        s.len() == t.len(),
        differ_at(s, t, i),
    ensures
        telemetry::hash_chars(h, s) != telemetry::hash_chars(h, t),
    decreases s.len(),
{
    let (a, b) = (s.drop_last(), t.drop_last());
    let n = s.len() - 1;
    if i == n {
        assert forall|j: int| 0 <= j < n implies a[j] == b[j] by {
            assert(s[j] == t[j]);
        }
        assert(a =~= b);
        assert(s.last() != t.last());
        lemma_codes_differ(s.last(), t.last());
        steps_keep_things_apart(s.last() as u64, t.last() as u64, telemetry::hash_chars(h, a));
    } else {
        assert(differ_at(a, b, i)) by {
            assert forall|j: int| 0 <= j < a.len() && j != i implies #[trigger] a[j] == b[j] by {
                assert(s[j] == t[j]);
            }
        }
        lemma_change_shows(h, a, b, i);
        assert(s[n] == t[n]);
        steps_keep_things_apart(
            telemetry::hash_chars(h, a),
            telemetry::hash_chars(h, b),
            s.last() as u64,
        );
    }
}

/// A text that is changed in one character has another hash, and whatever was apart before
/// it stays so.
pub proof fn changed_texts_show(a: u64, b: u64, s: Seq<char>, t: Seq<char>)
    ensures
        one_apart(s, t) ==> telemetry::hash_text(a, s) != telemetry::hash_text(a, t),
        a != b ==> telemetry::hash_text(a, s) != telemetry::hash_text(b, s),
{
    if one_apart(s, t) {
        let i = choose|i: int| differ_at(s, t, i);
        lemma_change_shows(a, s, t, i);
        steps_keep_things_apart(
            telemetry::hash_chars(a, s),
            telemetry::hash_chars(a, t),
            0x11_0000,
        );
    }
    if a != b {
        lemma_chars_apart(a, b, s);
    }
}

proof fn lemma_texts_apart(a: u64, b: u64, s: Seq<Seq<char>>)
    requires
        a != b,
    ensures
        telemetry::hash_texts(a, s) != telemetry::hash_texts(b, s),
    decreases s.len(),
{
    if s.len() > 0 {
        lemma_texts_apart(a, b, s.drop_last());
        lemma_chars_apart(
            telemetry::hash_texts(a, s.drop_last()),
            telemetry::hash_texts(b, s.drop_last()),
            s.last(),
        );
    }
}

proof fn lemma_names_kept_apart(a: u64, b: u64, c: FrameCtxView)
    requires
        a != b,
    ensures
        named(a, c) != named(b, c),
{
    changed_texts_show(a, b, c.power_base, c.power_base);
    let (a, b) = (
        telemetry::hash_text(a, c.power_base),
        telemetry::hash_text(b, c.power_base),
    );
    changed_texts_show(a, b, c.desired_profile, c.desired_profile);
    let (a, b) = (
        telemetry::hash_text(a, c.desired_profile),
        telemetry::hash_text(b, c.desired_profile),
    );
    changed_texts_show(a, b, c.applied_profile, c.applied_profile);
    let (a, b) = (
        telemetry::hash_text(a, c.applied_profile),
        telemetry::hash_text(b, c.applied_profile),
    );
    changed_texts_show(a, b, c.active_profile, c.active_profile);
}

/// The hash with the names that a frame holds.
spec fn named(h: u64, c: FrameCtxView) -> u64 {
    let h = telemetry::hash_text(h, c.power_base);
    let h = telemetry::hash_text(h, c.desired_profile);
    let h = telemetry::hash_text(h, c.applied_profile);
    telemetry::hash_text(h, c.active_profile)
}

/// The hash with the flags that a frame holds, and the count.
spec fn flagged(c: FrameCtxView) -> u64 {
    let h = telemetry::hash_flag(telemetry::HASH_START, c.lid_closed);
    let h = telemetry::mixed(h, c.ext_mon_count as u64);
    let h = telemetry::hash_flag(h, c.inhibitor);
    let h = telemetry::hash_flag(h, c.locked);
    let h = telemetry::hash_flag(h, c.on_ac);
    telemetry::hash_flag(h, c.low_battery)
}

proof fn lemma_flags_show(c: FrameCtxView, d: FrameCtxView)
    ensures
        d == (FrameCtxView { lid_closed: !c.lid_closed, ..c }) ==> flagged(c) != flagged(d),
        d == (FrameCtxView { ext_mon_count: d.ext_mon_count, ..c }) && d.ext_mon_count
            != c.ext_mon_count ==> flagged(c) != flagged(d),
        d == (FrameCtxView { inhibitor: !c.inhibitor, ..c }) ==> flagged(c) != flagged(d),
        d == (FrameCtxView { locked: !c.locked, ..c }) ==> flagged(c) != flagged(d),
        d == (FrameCtxView { on_ac: !c.on_ac, ..c }) ==> flagged(c) != flagged(d),
        d == (FrameCtxView { low_battery: !c.low_battery, ..c }) ==> flagged(c) != flagged(d),
{
    let a = telemetry::hash_flag(telemetry::HASH_START, c.lid_closed);
    let b = telemetry::hash_flag(telemetry::HASH_START, d.lid_closed);
    lemma_flag(telemetry::HASH_START, telemetry::HASH_START, c.lid_closed, d.lid_closed);
    let (a2, b2) = (
        telemetry::mixed(a, c.ext_mon_count as u64),
        telemetry::mixed(b, d.ext_mon_count as u64),
    );
    if a != b && c.ext_mon_count == d.ext_mon_count {
        steps_keep_things_apart(a, b, c.ext_mon_count as u64);
    }
    if a == b && c.ext_mon_count != d.ext_mon_count {
        steps_keep_things_apart(c.ext_mon_count as u64, d.ext_mon_count as u64, a);
    }
    lemma_flag(a2, b2, c.inhibitor, d.inhibitor);
    let (a3, b3) = (telemetry::hash_flag(a2, c.inhibitor), telemetry::hash_flag(b2, d.inhibitor));
    lemma_flag(a3, b3, c.locked, d.locked);
    let (a4, b4) = (telemetry::hash_flag(a3, c.locked), telemetry::hash_flag(b3, d.locked));
    lemma_flag(a4, b4, c.on_ac, d.on_ac);
    let (a5, b5) = (telemetry::hash_flag(a4, c.on_ac), telemetry::hash_flag(b4, d.on_ac));
    lemma_flag(a5, b5, c.low_battery, d.low_battery);
}

proof fn lemma_flag(a: u64, b: u64, f: bool, g: bool)
    ensures
        a == b && f != g ==> telemetry::hash_flag(a, f) != telemetry::hash_flag(b, g),
        a != b && f == g ==> telemetry::hash_flag(a, f) != telemetry::hash_flag(b, g),
        a == b && f == g ==> telemetry::hash_flag(a, f) == telemetry::hash_flag(b, g),
{
    if a == b && f != g {
        steps_keep_things_apart(1, 0, a);
    }
    if a != b && f == g {
        steps_keep_things_apart(a, b, if f {
            1
        } else {
            0
        });
    }
}

/// A context that changed in a flag or in the number of monitors has another print: no such
/// change goes untold.
pub proof fn changed_inputs_show(c: FrameCtxView, n: u32)
    ensures
        (FrameCtxView { lid_closed: !c.lid_closed, ..c }).print() != c.print(),
        (FrameCtxView { inhibitor: !c.inhibitor, ..c }).print() != c.print(),
        (FrameCtxView { locked: !c.locked, ..c }).print() != c.print(),
        (FrameCtxView { on_ac: !c.on_ac, ..c }).print() != c.print(),
        (FrameCtxView { low_battery: !c.low_battery, ..c }).print() != c.print(),
        n != c.ext_mon_count ==> (FrameCtxView { ext_mon_count: n, ..c }).print() != c.print(),
{
    lemma_shows(c, FrameCtxView { lid_closed: !c.lid_closed, ..c });
    lemma_shows(c, FrameCtxView { inhibitor: !c.inhibitor, ..c });
    lemma_shows(c, FrameCtxView { locked: !c.locked, ..c });
    lemma_shows(c, FrameCtxView { on_ac: !c.on_ac, ..c });
    lemma_shows(c, FrameCtxView { low_battery: !c.low_battery, ..c });
    lemma_shows(c, FrameCtxView { ext_mon_count: n, ..c });
}

proof fn lemma_shows(c: FrameCtxView, d: FrameCtxView)
    requires
        c.power_base == d.power_base,
        c.desired_profile == d.desired_profile,
        c.applied_profile == d.applied_profile,
        c.active_profile == d.active_profile,
    ensures
        d == (FrameCtxView { lid_closed: !c.lid_closed, ..c }) ==> c.print() != d.print(),
        d == (FrameCtxView { ext_mon_count: d.ext_mon_count, ..c }) && d.ext_mon_count
            != c.ext_mon_count ==> c.print() != d.print(),
        d == (FrameCtxView { inhibitor: !c.inhibitor, ..c }) ==> c.print() != d.print(),
        d == (FrameCtxView { locked: !c.locked, ..c }) ==> c.print() != d.print(),
        d == (FrameCtxView { on_ac: !c.on_ac, ..c }) ==> c.print() != d.print(),
        d == (FrameCtxView { low_battery: !c.low_battery, ..c }) ==> c.print() != d.print(),
{
    lemma_flags_show(c, d);
    assert(c.print() == named(flagged(c), c));
    assert(d.print() == named(flagged(d), d));
    if flagged(c) != flagged(d) {
        lemma_names_kept_apart(flagged(c), flagged(d), c);
        assert(named(flagged(d), c) == named(flagged(d), d));
    }
}

/// A context that changed in a name shows, be it the base state, the profile that is
/// wanted, the one in force or the active one.
pub proof fn changed_names_show(c: FrameCtxView, other: Seq<char>)
    ensures
        one_apart(c.power_base, other) ==> (FrameCtxView { power_base: other, ..c }).print()
            != c.print(),
        one_apart(c.desired_profile, other) ==> (FrameCtxView { desired_profile: other, ..c }).print()
            != c.print(),
        one_apart(c.applied_profile, other) ==> (FrameCtxView { applied_profile: other, ..c }).print()
            != c.print(),
        one_apart(c.active_profile, other) ==> (FrameCtxView { active_profile: other, ..c }).print()
            != c.print(),
{
    let h0 = flagged(c);
    let h1 = telemetry::hash_text(h0, c.power_base);
    let h2 = telemetry::hash_text(h1, c.desired_profile);
    let h3 = telemetry::hash_text(h2, c.applied_profile);
    let o0 = telemetry::hash_text(h0, other);
    let o1 = telemetry::hash_text(h1, other);
    let o2 = telemetry::hash_text(h2, other);
    changed_texts_show(h0, h0, c.power_base, other);
    changed_texts_show(h1, h1, c.desired_profile, other);
    changed_texts_show(h2, h2, c.applied_profile, other);
    changed_texts_show(h3, h3, c.active_profile, other);
    assert(c.print() == named(h0, c));
    let with_base = FrameCtxView { power_base: other, ..c };
    let with_desired = FrameCtxView { desired_profile: other, ..c };
    let with_applied = FrameCtxView { applied_profile: other, ..c };
    let with_active = FrameCtxView { active_profile: other, ..c };
    assert(with_base.print() == named(h0, with_base));
    assert(with_desired.print() == named(h0, with_desired));
    assert(with_applied.print() == named(h0, with_applied));
    assert(with_active.print() == named(h0, with_active));
    // What follows the name that changed keeps the difference.
    changed_texts_show(h1, o0, c.desired_profile, c.desired_profile);
    let p0 = telemetry::hash_text(o0, c.desired_profile);
    changed_texts_show(h2, p0, c.applied_profile, c.applied_profile);
    let q0 = telemetry::hash_text(p0, c.applied_profile);
    changed_texts_show(h3, q0, c.active_profile, c.active_profile);
    changed_texts_show(h2, o1, c.applied_profile, c.applied_profile);
    let p1 = telemetry::hash_text(o1, c.applied_profile);
    changed_texts_show(h3, p1, c.active_profile, c.active_profile);
    changed_texts_show(h3, o2, c.active_profile, c.active_profile);
}

/// A frame shows a change of its context, and a change of where it comes from or leads to,
/// of its kind and of its event.
pub proof fn changed_frames_show(f: FrameView, ctx: FrameCtxView, other: Seq<char>)
    ensures
        ctx.print() != f.ctx.print() ==> (FrameView { ctx, ..f }).print() != f.print(),
        one_apart(f.kind, other) ==> (FrameView { kind: other, ..f }).print() != f.print(),
        one_apart(f.from, other) ==> (FrameView { from: other, ..f }).print() != f.print(),
        one_apart(f.event, other) ==> (FrameView { event: other, ..f }).print() != f.print(),
        one_apart(f.to, other) ==> (FrameView { to: other, ..f }).print() != f.print(),
{
    let h0 = telemetry::HASH_START;
    let h1 = telemetry::hash_text(h0, f.kind);
    let h2 = telemetry::hash_text(h1, f.from);
    let h3 = telemetry::hash_text(h2, f.event);
    let h4 = telemetry::hash_text(h3, f.to);
    let h5 = telemetry::hash_text(h4, f.screen);
    let done = telemetry::hash_texts(h5, f.effectors);
    let (a, b) = (f.ctx.print(), ctx.print());
    assert(a != b ==> a ^ done != b ^ done) by (bit_vector);
    changed_texts_show(h0, h0, f.kind, other);
    changed_texts_show(h1, h1, f.from, other);
    changed_texts_show(h2, h2, f.event, other);
    changed_texts_show(h3, h3, f.to, other);
    let o0 = telemetry::hash_text(h0, other);
    let o1 = telemetry::hash_text(h1, other);
    let o2 = telemetry::hash_text(h2, other);
    let o3 = telemetry::hash_text(h3, other);
    if o0 != h1 {
        changed_texts_show(h1, o0, f.from, f.from);
        let p = telemetry::hash_text(o0, f.from);
        changed_texts_show(h2, p, f.event, f.event);
        let p = telemetry::hash_text(p, f.event);
        lemma_rest(f, h3, p);
    }
    if o1 != h2 {
        changed_texts_show(h2, o1, f.event, f.event);
        let p = telemetry::hash_text(o1, f.event);
        lemma_rest(f, h3, p);
    }
    if o2 != h3 {
        lemma_rest(f, h3, o2);
    }
    if o3 != h4 {
        lemma_end(f, h4, o3);
    }
}

proof fn lemma_rest(f: FrameView, a: u64, b: u64)
    requires
        a != b,
    ensures
        ({
            let x = telemetry::hash_text(telemetry::hash_text(a, f.to), f.screen);
            let y = telemetry::hash_text(telemetry::hash_text(b, f.to), f.screen);
            f.ctx.print() ^ telemetry::hash_texts(x, f.effectors) != f.ctx.print()
                ^ telemetry::hash_texts(y, f.effectors)
        }),
{
    changed_texts_show(a, b, f.to, f.to);
    lemma_end(f, telemetry::hash_text(a, f.to), telemetry::hash_text(b, f.to));
}

proof fn lemma_end(f: FrameView, a: u64, b: u64)
    requires
        a != b,
    ensures
        ({
            let x = telemetry::hash_text(a, f.screen);
            let y = telemetry::hash_text(b, f.screen);
            f.ctx.print() ^ telemetry::hash_texts(x, f.effectors) != f.ctx.print()
                ^ telemetry::hash_texts(y, f.effectors)
        }),
{
    changed_texts_show(a, b, f.screen, f.screen);
    let x = telemetry::hash_text(a, f.screen);
    let y = telemetry::hash_text(b, f.screen);
    lemma_texts_apart(x, y, f.effectors);
    let (c, p, q) = (
        f.ctx.print(),
        telemetry::hash_texts(x, f.effectors),
        telemetry::hash_texts(y, f.effectors),
    );
    assert(p != q ==> c ^ p != c ^ q) by (bit_vector);
}

/// A profile's file that grew, shrank or was written again has another hash; a file that is
/// no profile's does not count.
pub proof fn changed_sources_show(h: u64, f: SourceView, n: u64, secs: u64, nanos: u32)
    ensures
        ({
            let toml = profile_store::path_extension_of(f.path) == Some("toml"@);
            let then_at = f.modified;
            &&& !toml ==> profile_store::hash_file(h, f) == h
            &&& toml && f.len is Some && f.len != Some(n) ==> profile_store::hash_file(
                h,
                SourceView { len: Some(n), ..f },
            ) != profile_store::hash_file(h, f)
            &&& toml && f.len is Some && then_at is Some && (then_at->0).0 != secs
                ==> profile_store::hash_file(
                h,
                SourceView { modified: Some((secs, (then_at->0).1)), ..f },
            ) != profile_store::hash_file(h, f)
            &&& toml && f.len is Some && then_at is Some && (then_at->0).1 != nanos
                ==> profile_store::hash_file(
                h,
                SourceView { modified: Some(((then_at->0).0, nanos)), ..f },
            ) != profile_store::hash_file(h, f)
        }),
{
    let base = telemetry::hash_text(h, f.path);
    if f.len is Some {
        let old_len = f.len->0;
        if old_len != n {
            steps_keep_things_apart(old_len, n, base);
            let (a, b) = (telemetry::mixed(base, old_len), telemetry::mixed(base, n));
            if f.modified is Some {
                let t = f.modified->0;
                steps_keep_things_apart(a, b, t.0);
                steps_keep_things_apart(
                    telemetry::mixed(a, t.0),
                    telemetry::mixed(b, t.0),
                    t.1 as u64,
                );
            }
        }
        if f.modified is Some {
            let t = f.modified->0;
            let sized = telemetry::mixed(base, old_len);
            if t.0 != secs {
                steps_keep_things_apart(t.0, secs, sized);
                steps_keep_things_apart(
                    telemetry::mixed(sized, t.0),
                    telemetry::mixed(sized, secs),
                    t.1 as u64,
                );
            }
            if t.1 != nanos {
                steps_keep_things_apart(
                    t.1 as u64,
                    nanos as u64,
                    telemetry::mixed(sized, t.0),
                );
            }
        }
    }
}

/// A change of one file shows in the hash of all of them.
pub proof fn one_changed_source_is_enough(
    h: u64,
    before: Seq<SourceView>,
    f: SourceView,
    g: SourceView,
    after: Seq<SourceView>,
)
    requires
        profile_store::hash_file(profile_store::hash_files(h, before), f)
            != profile_store::hash_file(profile_store::hash_files(h, before), g),
    ensures
        profile_store::hash_files(h, before.push(f) + after) != profile_store::hash_files(
            h,
            before.push(g) + after,
        ),
    decreases after.len(),
{
    if after.len() == 0 {
        assert(before.push(f) + after =~= before.push(f));
        assert(before.push(g) + after =~= before.push(g));
        assert(before.push(f).drop_last() =~= before);
        assert(before.push(g).drop_last() =~= before);
    } else {
        let init = after.drop_last();
        one_changed_source_is_enough(h, before, f, g, init);
        assert((before.push(f) + after).drop_last() =~= before.push(f) + init);
        assert((before.push(g) + after).drop_last() =~= before.push(g) + init);
        let last = after.last();
        assert((before.push(f) + after).last() == last);
        assert((before.push(g) + after).last() == last);
        lemma_file_apart(
            profile_store::hash_files(h, before.push(f) + init),
            profile_store::hash_files(h, before.push(g) + init),
            last,
        );
    }
}

/// A directory that has another name, or other hashes before it, has another hash; so has
/// one whose file grew. The order in which the files are found does not count.
pub proof fn changed_directories_show(
    h: u64,
    g: u64,
    dir: Seq<char>,
    other: Seq<char>,
    files: Seq<SourceView>,
    a: SourceView,
    b: SourceView,
    n: u64,
)
    requires
        text::text_less(a.path, b.path),
    ensures
        one_apart(dir, other) ==> profile_store::hash_dir(h, dir, files)
            != profile_store::hash_dir(h, other, files),
        h != g ==> profile_store::hash_dir(h, dir, files) != profile_store::hash_dir(g, dir, files),
        profile_store::hash_dir(h, dir, seq![a, b]) == profile_store::hash_dir(h, dir, seq![b, a]),
        profile_store::path_extension_of(a.path) == Some("toml"@) && a.len is Some && a.len != Some(
            n,
        ) ==> profile_store::hash_dir(h, dir, seq![a]) != profile_store::hash_dir(
            h,
            dir,
            seq![SourceView { len: Some(n), ..a }],
        ),
{
    let at = order::order(profile_store::by_source(files), files.len() as int);
    let sorted = Seq::new(files.len(), |i: int| files[at[i]]);
    changed_texts_show(h, g, dir, other);
    if one_apart(dir, other) {
        lemma_files_apart(
            telemetry::hash_text(h, dir),
            telemetry::hash_text(h, other),
            sorted,
        );
    }
    if h != g {
        lemma_files_apart(telemetry::hash_text(h, dir), telemetry::hash_text(g, dir), sorted);
    }
    reveal_with_fuel(order::order, 3);
    reveal_with_fuel(order::place, 3);
    let kept = profile_store::by_source(seq![a, b]);
    let turned = profile_store::by_source(seq![b, a]);
    order::by_text_is_order(seq![a.path, b.path]);
    let keys = order::by_text(seq![a.path, b.path]);
    assert(keys(0, 1));
    assert(!keys(1, 0));
    assert(!kept(1, 0));
    assert(turned(1, 0));
    assert(order::order(kept, 0) =~= Seq::<int>::empty());
    assert(order::order(kept, 1) =~= seq![0int]);
    assert(order::order(kept, 2) =~= seq![0int, 1int]);
    assert(order::order(turned, 0) =~= Seq::<int>::empty());
    assert(order::order(turned, 1) =~= seq![0int]);
    assert(seq![0int].drop_last() =~= Seq::<int>::empty());
    assert(order::place(turned, seq![0int], 1) =~= seq![1int, 0int]);
    assert(order::order(turned, 2) =~= seq![1int, 0int]);
    let one = order::order(kept, 2);
    let two = order::order(turned, 2);
    assert(Seq::new(2, |i: int| seq![a, b][one[i]]) =~= Seq::new(2, |i: int| seq![b, a][two[i]]));
    let start = telemetry::hash_text(h, dir);
    changed_sources_show(start, a, n, 0, 0);
    lemma_single(h, dir, a);
    lemma_single(h, dir, SourceView { len: Some(n), ..a });
}

proof fn lemma_single(h: u64, dir: Seq<char>, f: SourceView)
    ensures
        profile_store::hash_dir(h, dir, seq![f]) == profile_store::hash_file(
            telemetry::hash_text(h, dir),
            f,
        ),
{
    reveal_with_fuel(order::order, 2);
    reveal_with_fuel(order::place, 2);
    reveal_with_fuel(profile_store::hash_files, 2);
    let by = profile_store::by_source(seq![f]);
    assert(order::order(by, 0) =~= Seq::<int>::empty());
    assert(order::order(by, 1) =~= seq![0int]);
    let at = order::order(by, 1);
    let files = Seq::new(1, |i: int| seq![f][at[i]]);
    assert(files =~= seq![f]);
    assert(files.drop_last() =~= Seq::<SourceView>::empty());
}

proof fn lemma_files_apart(a: u64, b: u64, files: Seq<SourceView>)
    requires
        a != b,
    ensures
        profile_store::hash_files(a, files) != profile_store::hash_files(b, files),
    decreases files.len(),
{
    if files.len() > 0 {
        lemma_files_apart(a, b, files.drop_last());
        lemma_file_apart(
            profile_store::hash_files(a, files.drop_last()),
            profile_store::hash_files(b, files.drop_last()),
            files.last(),
        );
    }
}

proof fn lemma_file_apart(a: u64, b: u64, f: SourceView)
    requires
        a != b,
    ensures
        profile_store::hash_file(a, f) != profile_store::hash_file(b, f),
{
    changed_texts_show(a, b, f.path, f.path);
    let (x, y) = (telemetry::hash_text(a, f.path), telemetry::hash_text(b, f.path));
    if f.len is Some {
        let n = f.len->0;
        steps_keep_things_apart(x, y, n);
        let (x, y) = (telemetry::mixed(x, n), telemetry::mixed(y, n));
        if f.modified is Some {
            let t = f.modified->0;
            steps_keep_things_apart(x, y, t.0);
            steps_keep_things_apart(
                telemetry::mixed(x, t.0),
                telemetry::mixed(y, t.0),
                t.1 as u64,
            );
        }
    }
}

} // verus!
