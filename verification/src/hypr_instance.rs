//! Resolving the running compositor: its process id from the lock file of the
//! instance, and the device list from its environment, which is the ground truth
//! for what the session renders with.
use vstd::prelude::*;

use crate::number;
use crate::text;

verus! {

/// The process id that a lock file states in its first line.
pub open spec fn pid_in(lock: Seq<char>) -> Option<int> {
    let lines = text::lines_of(lock);
    if lines.len() == 0 {
        None
    } else {
        number::within(number::natural_of(text::trimmed(lines[0])), 0, u32::MAX as int)
    }
}

/// The process id in the content of a lock file.
pub fn lock_pid(lock: &str) -> (r: Option<u32>)
    ensures
        number::opt_u32(r) == pid_in(lock@),
{
    let lines = text::lines(lock);
    if lines.len() == 0 {
        return None;
    }
    assert(text::strs(lines@)[0] == lines@[0]@);
    number::parse_u32(text::trim(lines[0]))
}

/// The process id of the instance: the one that the lock file states, provided that
/// the process of that id is the compositor. `None` while that is not confirmed.
pub fn hyprland_pid(lock: Option<&str>, comm: Option<&str>) -> (r: Option<u32>)
    ensures
        number::opt_u32(r) == (match (lock, comm) {
            (Some(l), Some(c)) => if text::trimmed(c@) == "Hyprland"@ {
                pid_in(l@)
            } else {
                None
            },
            _ => None,
        }),
{
    match (lock, comm) {
        (Some(l), Some(c)) => {
            if text::str_eq(text::trim(c), "Hyprland") {
                lock_pid(l)
            } else {
                None
            }
        },
        _ => None,
    }
}

// --------------------------------------------------------------- environment

/// How many bytes stand before the first zero byte.
pub open spec fn until_zero(s: Seq<u8>) -> nat
    decreases s.len(),
{
    if s.len() == 0 || s[0] == 0 {
        0
    } else {
        1 + until_zero(s.skip(1))
    }
}

/// `s` starts with `p`.
pub open spec fn bytes_prefix(s: Seq<u8>, p: Seq<u8>) -> bool {
    p.len() <= s.len() && s.take(p.len() as int) == p
}

/// What stands behind `key` in the first zero-separated chunk that starts with it.
pub open spec fn env_value(environ: Seq<u8>, key: Seq<u8>) -> Option<Seq<u8>>
    decreases environ.len(),
{
    let k = until_zero(environ);
    let chunk = environ.take(k as int);
    if bytes_prefix(chunk, key) {
        Some(chunk.skip(key.len() as int))
    } else if k >= environ.len() {
        None
    } else {
        env_value(environ.skip(k as int + 1), key)
    }
}

/// The pieces of a device list; empty pieces do not count.
pub open spec fn nonempty(pieces: Seq<Seq<char>>) -> Seq<Seq<char>>
    decreases pieces.len(),
{
    if pieces.len() == 0 {
        seq![]
    } else if pieces.last().len() > 0 {
        nonempty(pieces.drop_last()).push(pieces.last())
    } else {
        nonempty(pieces.drop_last())
    }
}

/// What `String::from_utf8_lossy` makes of some bytes.
pub uninterp spec fn lossy_text(bytes: Seq<u8>) -> Seq<char>;

/// Decodes bytes with `String::from_utf8_lossy`. Trusted: the text is a function of
/// the bytes alone, and what they encode where they are valid UTF-8. What stands in for
/// bytes that are not is left unsaid.
#[verifier::external_body]
pub(crate) fn decode_lossy(bytes: &[u8]) -> (r: String)
    ensures
        r@ == lossy_text(bytes@),
        vstd::utf8::valid_utf8(bytes@) ==> r@ == vstd::utf8::decode_utf8(bytes@),
{
    String::from_utf8_lossy(bytes).into_owned()
}

/// The bytes before which the device list stands.
pub open spec fn devices_key() -> Seq<u8> {
    vstd::utf8::encode_utf8("AQ_DRM_DEVICES="@)
}

/// The device list that an environment names; empty where it names none.
pub open spec fn devices_in(environ: Seq<u8>) -> Seq<Seq<char>> {
    match env_value(environ, devices_key()) {
        Some(v) => nonempty(text::split_of(lossy_text(v), ':')),
        None => seq![],
    }
}

proof fn lemma_until_zero(s: Seq<u8>, k: int)
    requires
        0 <= k <= s.len(),
        forall|i: int| 0 <= i < k ==> s[i] != 0,
        k == s.len() || s[k] == 0,
    ensures
        until_zero(s) == k,
    decreases k,
{
    if k > 0 {
        let t = s.skip(1);
        assert forall|i: int| 0 <= i < k - 1 implies t[i] != 0 by {
            assert(t[i] == s[i + 1]);
        }
        lemma_until_zero(t, k - 1);
    }
}

/// Copies `bytes[from..to]`.
fn slice_of(bytes: &[u8], from: usize, to: usize) -> (r: Vec<u8>)
    requires
        from <= to <= bytes@.len(),
    ensures
        r@ == bytes@.subrange(from as int, to as int),
{
    let mut out: Vec<u8> = Vec::new();
    let mut i: usize = from;
    while i < to
        invariant
            from <= i <= to <= bytes@.len(),
            out@ == bytes@.subrange(from as int, i as int),
        decreases to - i,
    {
        out.push(bytes[i]);
        assert(out@ =~= bytes@.subrange(from as int, i + 1));
        i += 1;
    }
    out
}

/// Whether `key` stands in `bytes` at `from`, before `to`.
fn has_key(bytes: &[u8], from: usize, to: usize, key: &[u8]) -> (r: bool)
    requires
        from <= to <= bytes@.len(),
    ensures
        r == bytes_prefix(bytes@.subrange(from as int, to as int), key@),
{
    let ghost chunk = bytes@.subrange(from as int, to as int);
    if key.len() > to - from {
        return false;
    }
    let mut i: usize = 0;
    while i < key.len()
        invariant
            i <= key@.len() <= to - from,
            from <= to <= bytes@.len(),
            chunk == bytes@.subrange(from as int, to as int),
            forall|j: int| 0 <= j < i ==> chunk[j] == key@[j],
        decreases key@.len() - i,
    {
        if bytes[from + i] != key[i] {
            assert(chunk.take(key@.len() as int)[i as int] != key@[i as int]);
            return false;
        }
        i += 1;
    }
    assert(chunk.take(key@.len() as int) =~= key@);
    true
}

/// The value that an environment has behind `key`.
fn find_env(environ: &[u8], key: &[u8]) -> (r: Option<Vec<u8>>)
    ensures
        match r {
            Some(v) => env_value(environ@, key@) == Some(v@),
            None => env_value(environ@, key@) is None,
        },
{
    let n: usize = environ.len();
    let mut pos: usize = 0;
    assert(environ@.skip(0) =~= environ@);
    loop
        invariant
            n == environ@.len(),
            pos <= n,
            env_value(environ@, key@) == env_value(environ@.skip(pos as int), key@),
        decreases n - pos,
    {
        let ghost rest = environ@.skip(pos as int);
        let mut end: usize = pos;
        while end < n && environ[end] != 0
            invariant
                n == environ@.len(),
                pos <= end <= n,
                forall|i: int| pos <= i < end ==> environ@[i] != 0,
            decreases n - end,
        {
            end += 1;
        }
        proof {
            lemma_until_zero(rest, end - pos);
            assert(rest.take(end - pos) =~= environ@.subrange(pos as int, end as int));
        }
        if has_key(environ, pos, end, key) {
            let v = slice_of(environ, pos + key.len(), end);
            assert(v@ =~= rest.take(end - pos).skip(key@.len() as int));
            return Some(v);
        }
        if end == n {
            return None;
        }
        assert(rest.skip(end - pos + 1) =~= environ@.skip(end + 1));
        pos = end + 1;
    }
}

/// The devices that the value of the variable lists. Empty pieces do not count.
pub fn listed_devices(value: &str) -> (r: Vec<String>)
    ensures
        text::strings(r@) == nonempty(text::split_of(value@, ':')),
{
    let mut out: Vec<String> = Vec::new();
    assert(text::strings(out@) =~= Seq::<Seq<char>>::empty());
    let pieces = text::split(value, ':');
    let ghost all = text::split_of(value@, ':');
    let mut i: usize = 0;
    assert(all.take(0) =~= Seq::<Seq<char>>::empty());
    while i < pieces.len()
        invariant
            i <= pieces@.len(),
            text::strs(pieces@) == all,
            text::strings(out@) == nonempty(all.take(i as int)),
        decreases pieces@.len() - i,
    {
        let ghost before = text::strings(out@);
        proof {
            assert(all.take(i + 1).drop_last() =~= all.take(i as int));
            assert(all.take(i + 1).last() == pieces@[i as int]@);
        }
        if !pieces[i].is_empty() {
            out.push(String::from_str(pieces[i]));
            assert(text::strings(out@) =~= before.push(pieces@[i as int]@));
        }
        i += 1;
    }
    assert(all.take(all.len() as int) =~= all);
    out
}

/// The device list in the environment of the compositor; empty where the variable
/// is unset and the compositor uses its defaults.
pub fn hyprland_aq_devices(environ: &[u8]) -> (r: Vec<String>)
    ensures
        text::strings(r@) == devices_in(environ@),
{
    match find_env(environ, "AQ_DRM_DEVICES=".as_bytes()) {
        Some(v) => listed_devices(decode_lossy(v.as_slice()).as_str()),
        None => {
            let out: Vec<String> = Vec::new();
            assert(text::strings(out@) =~= Seq::<Seq<char>>::empty());
            out
        },
    }
}

proof fn lemma_nonempty(pieces: Seq<Seq<char>>)
    requires
        forall|i: int| 0 <= i < pieces.len() ==> (#[trigger] pieces[i]).len() > 0,
    ensures
        nonempty(pieces) == pieces,
    decreases pieces.len(),
{
    if pieces.len() > 0 {
        lemma_nonempty(pieces.drop_last());
        assert(pieces.drop_last().push(pieces.last()) =~= pieces);
    }
}

/// A device list that was joined with colons is read back as it was.
pub proof fn joined_devices_are_read_back(devices: Seq<Seq<char>>)
    requires
        devices.len() > 0,
        forall|i: int|
            0 <= i < devices.len() ==> (#[trigger] devices[i]).len() > 0 && !devices[i].contains(':'),
    ensures
        nonempty(text::split_of(text::joined(devices, ":"@), ':')) == devices,
{
    reveal_strlit(":");
    assert(":"@ =~= seq![':']);
    text::split_undoes_join(devices, ':');
    lemma_nonempty(devices);
}

} // verus!
