//! GPU-selection drift: what the session renders with against what a selection
//! would now give. The device list of a session is fixed at login, so this only
//! ever advises.
use vstd::prelude::*;

use crate::ctx;
use crate::ctx::{GpuSession, GpuView};
use crate::profiles::GpuPref;
use crate::text;

verus! {

/// The shortest time between two pieces of advice, in nanoseconds.
pub const GPU_NOTIFY_MIN: u64 = 60_000_000_000;

/// The overlay word that a profile's preference amounts to: `auto` is none.
pub open spec fn overlay_of(pref: GpuPref) -> Option<Seq<char>> {
    match pref {
        GpuPref::Auto => None,
        _ => Some(pref.word()),
    }
}

/// The overlay word that a profile's preference amounts to.
pub fn overlay_word(pref: GpuPref) -> (r: Option<&'static str>)
    ensures
        text::opt_str(r) == overlay_of(pref),
{
    match pref {
        GpuPref::Auto => None,
        GpuPref::Igpu => Some("igpu"),
        GpuPref::Dgpu => Some("dgpu"),
    }
}

/// The context after the session's device list was looked up. `None` leaves it
/// pending; an empty list leaves the reason of the last selection to be looked at.
pub open spec fn session_seen(c: GpuView, devices: Option<Seq<Seq<char>>>) -> GpuView {
    match devices {
        None => c,
        Some(d) => if d.len() > 0 {
            GpuView { pending: false, actual: Some(d), ..c }
        } else {
            GpuView { pending: false, ..c }
        },
    }
}

/// Takes in the session's device list. Answers whether the reason of the last
/// selection has to be looked at.
pub fn see_session(gpu: &mut GpuSession, devices: Option<Vec<String>>) -> (r: bool)
    ensures
        final(gpu)@ == session_seen(old(gpu)@, ctx::opt_strings(devices)),
        r == (ctx::opt_strings(devices) matches Some(d) && d.len() == 0),
{
    match devices {
        None => false,
        Some(d) => {
            gpu.pending = false;
            if d.len() > 0 {
                gpu.actual = Some(d);
                false
            } else {
                true
            }
        },
    }
}

/// The last selection stepped aside for a passing reason, so the user still wants
/// to hear that another login would now give a managed session.
pub open spec fn wants_advice(reason: Option<Seq<char>>) -> bool {
    reason == Some("bailed-transient"@) || reason == Some("validation-failed"@)
}

/// The context after the reason of the last selection was looked at.
pub open spec fn reason_seen(c: GpuView, reason: Option<Seq<char>>) -> GpuView {
    GpuView {
        actual: if wants_advice(reason) {
            Some(seq![])
        } else {
            None
        },
        ..c
    }
}

/// Takes in the reason of the last selection.
pub fn see_reason(gpu: &mut GpuSession, reason: Option<&str>)
    ensures
        final(gpu)@ == reason_seen(old(gpu)@, text::opt_str(reason)),
{
    if text::opt_is(reason, "bailed-transient") || text::opt_is(reason, "validation-failed") {
        let empty: Vec<String> = Vec::new();
        assert(text::strings(empty@) =~= Seq::<Seq<char>>::empty());
        gpu.actual = Some(empty);
    } else {
        gpu.actual = None;
    }
    assert(gpu@ =~= reason_seen(old(gpu)@, text::opt_str(reason)));
}

/// The card name that a device list starts with.
pub open spec fn primary_name(devices: Seq<Seq<char>>) -> Seq<char> {
    if devices.len() == 0 {
        seq![]
    } else {
        text::after_last(devices[0], '/')
    }
}

/// The advice in words.
pub open spec fn advice_text(
    devices: Seq<Seq<char>>,
    reason: Seq<char>,
    trigger: Seq<char>,
    on_ac: bool,
) -> Seq<char> {
    trigger + ": a relog would switch rendering to "@ + primary_name(devices) + " ("@ + reason
        + ")"@ + (if on_ac {
        seq![]
    } else {
        " — on battery"@
    })
}

/// The advice in words.
pub fn advice_message(devices: &Vec<String>, reason: &str, trigger: &str, on_ac: bool) -> (r: String)
    ensures
        r@ == advice_text(text::strings(devices@), reason@, trigger@, on_ac),
{
    let mut out = String::from_str(trigger);
    out.append(": a relog would switch rendering to ");
    if devices.len() > 0 {
        assert(text::strings(devices@)[0] == devices@[0]@);
        out.append(text::last_piece(devices[0].as_str(), '/'));
    } else {
        assert(out@ + primary_name(text::strings(devices@)) =~= out@);
    }
    out.append(" (");
    out.append(reason);
    out.append(")");
    if !on_ac {
        out.append(" — on battery");
    }
    assert(r_text(trigger@, text::strings(devices@), reason@) + Seq::<char>::empty() =~= r_text(
        trigger@,
        text::strings(devices@),
        reason@,
    ));
    out
}

spec fn r_text(trigger: Seq<char>, devices: Seq<Seq<char>>, reason: Seq<char>) -> Seq<char> {
    trigger + ": a relog would switch rendering to "@ + primary_name(devices) + " ("@ + reason
        + ")"@
}

/// The key under which advice is remembered.
pub open spec fn advice_key(devices: Seq<Seq<char>>) -> Seq<char> {
    text::joined(devices, ":"@)
}

/// Advice was given so recently that the next piece has to wait.
pub open spec fn too_soon(c: GpuView, now: int) -> bool {
    match c.last_notify_at {
        Some(at) => now - at < GPU_NOTIFY_MIN,
        None => false,
    }
}

/// The context after a drift check, and whether to advise: only in a managed session
/// whose list differs from the one a selection would give, once per list, and not
/// too often. A list that agrees arms the advice again.
pub open spec fn drift_checked(c: GpuView, desired: Option<Seq<Seq<char>>>, now: int) -> (
    GpuView,
    bool,
) {
    match (c.pending, c.actual, desired) {
        (false, Some(actual), Some(want)) => if want == actual {
            (GpuView { last_notified: None, ..c }, false)
        } else if c.last_notified == Some(advice_key(want)) || too_soon(c, now) {
            (c, false)
        } else {
            (
                GpuView {
                    last_notified: Some(advice_key(want)),
                    last_notify_at: Some(now),
                    ..c
                },
                true,
            )
        },
        _ => (c, false),
    }
}

/// Compares the session with a selection. Answers whether to advise.
pub fn gpu_drift_check(gpu: &mut GpuSession, desired: &Option<Vec<String>>, now: u64) -> (r: bool)
    ensures
        (final(gpu)@, r) == drift_checked(old(gpu)@, ctx::opt_strings(*desired), now as int),
{
    if gpu.pending {
        return false;
    }
    let want = match desired {
        Some(w) => w,
        None => {
            return false;
        },
    };
    let agrees = match &gpu.actual {
        Some(actual) => text::strings_eq(want, actual),
        None => {
            return false;
        },
    };
    if agrees {
        gpu.last_notified = None;
        return false;
    }
    let key = text::join(want, ":");
    if text::opt_is(text::opt_as_str(&gpu.last_notified), key.as_str()) {
        return false;
    }
    match gpu.last_notify_at {
        Some(at) => {
            if now < at || now - at < GPU_NOTIFY_MIN {
                return false;
            }
        },
        None => {},
    }
    gpu.last_notified = Some(key);
    gpu.last_notify_at = Some(now);
    assert(gpu@ =~= drift_checked(old(gpu)@, ctx::opt_strings(*desired), now as int).0);
    true
}

// ---------------------------------------------------------------------- laws

/// The same advice is not given twice in a row.
pub proof fn advice_is_not_repeated(c: GpuView, desired: Seq<Seq<char>>, now: int, later: int)
    requires
        drift_checked(c, Some(desired), now).1,
    ensures
        !drift_checked(drift_checked(c, Some(desired), now).0, Some(desired), later).1,
{
}

/// Two pieces of advice are at least a minute apart.
pub proof fn advice_keeps_its_distance(
    c: GpuView,
    first: Option<Seq<Seq<char>>>,
    second: Option<Seq<Seq<char>>>,
    now: int,
    later: int,
)
    requires
        drift_checked(c, first, now).1,
        later < now + GPU_NOTIFY_MIN,
    ensures
        !drift_checked(drift_checked(c, first, now).0, second, later).1,
{
}

/// A session that agrees with the selection is never advised about, nor is an
/// unmanaged or an unresolved one.
pub proof fn no_drift_no_advice(c: GpuView, desired: Option<Seq<Seq<char>>>, now: int)
    requires
        c.pending || c.actual is None || desired is None || desired == c.actual,
    ensures
        !drift_checked(c, desired, now).1,
{
}

} // verus!
