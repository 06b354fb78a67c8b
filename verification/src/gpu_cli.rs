//! The `gpu` command: the device list for the compositor, and what is shown of it.
use vstd::prelude::*;

use crate::gpu;
use crate::gpu::{GpuMode, GpuModeSource};
use crate::text;

verus! {

/// What an optional list of devices holds.
pub open spec fn devices_of(d: Option<Vec<String>>) -> Option<Seq<Seq<char>>> {
    match d {
        Some(v) => Some(text::strings(v@)),
        None => None,
    }
}

/// Whether to look once more after a moment: only a selection that bailed out because
/// nothing was connected yet is worth it.
pub fn needs_settle(action: &str, devices: &Option<Vec<String>>, reason: &str) -> (r: bool)
    ensures
        r == (*devices is None && reason@ == "bailed-transient"@ && action@ == "select"@),
{
    devices.is_none() && text::str_eq(reason, "bailed-transient") && text::str_eq(action, "select")
}

/// The selection after its devices were looked for. All or nothing: a list that lost a
/// device could leave no usable output.
pub open spec fn validated(
    devices: Option<Seq<Seq<char>>>,
    reason: Seq<char>,
    exist: Seq<bool>,
) -> (Option<Seq<Seq<char>>>, Seq<char>) {
    match devices {
        Some(d) => if forall|i: int| 0 <= i < d.len() ==> i < exist.len() && #[trigger] exist[i] {
            (devices, reason)
        } else {
            (None, "validation-failed"@)
        },
        None => (devices, reason),
    }
}

/// Checks a selection against which of its devices exist.
pub fn validate(devices: Option<Vec<String>>, reason: String, exist: &Vec<bool>) -> (r: (
    Option<Vec<String>>,
    String,
))
    requires
        devices matches Some(d) ==> d@.len() == exist@.len(),
    ensures
        (devices_of(r.0), r.1@) == validated(devices_of(devices), reason@, exist@),
{
    match devices {
        None => (None, reason),
        Some(list) => {
            let mut i: usize = 0;
            let mut all = true;
            while i < exist.len()
                invariant
                    i <= exist@.len(),
                    all == forall|k: int| 0 <= k < i ==> #[trigger] exist@[k],
                decreases exist@.len() - i,
            {
                if !exist[i] {
                    all = false;
                }
                i += 1;
            }
            let ghost d = text::strings(list@);
            if all {
                assert(forall|i: int| 0 <= i < d.len() ==> i < exist@.len() && #[trigger] exist@[i]);
                (Some(list), reason)
            } else {
                assert(!(forall|i: int|
                    0 <= i < d.len() ==> i < exist@.len() && #[trigger] exist@[i]));
                (None, String::from_str("validation-failed"))
            }
        },
    }
}

/// The line for the compositor's environment; nothing where the session is left to the
/// compositor's defaults.
pub fn device_line(devices: &Option<Vec<String>>) -> (r: Option<String>)
    ensures
        text::opt_string(r) == (match devices_of(*devices) {
            Some(d) => Some(text::joined(d, ":"@)),
            None => None,
        }),
{
    match devices {
        Some(list) => Some(text::join(list, ":")),
        None => None,
    }
}

// ------------------------------------------------------------------------ status

/// A list as it is shown.
pub open spec fn shown_list(d: Seq<Seq<char>>) -> Seq<char> {
    if d.len() == 0 {
        "(none)"@
    } else {
        text::joined(d, ":"@)
    }
}

/// The lines about the selection that was recorded.
pub fn intent_lines(mode: &str, reason: &str, devices: &Vec<String>) -> (r: (String, String))
    ensures
        r.0@ == "intent : mode="@ + mode@ + " reason="@ + reason@,
        r.1@ == "         devices="@ + shown_list(text::strings(devices@)),
{
    let mut first = text::concat3("intent : mode=", mode, " reason=");
    first.append(reason);
    let second = if devices.len() == 0 {
        text::concat2("         devices=", "(none)")
    } else {
        text::concat2("         devices=", text::join(devices, ":").as_str())
    };
    (first, second)
}

/// The line about what the session runs on.
pub fn actual_line(actual: &Option<Vec<String>>) -> (r: String)
    ensures
        r@ == (match devices_of(*actual) {
            None => "actual : (no Hyprland session found)"@,
            Some(d) => if d.len() == 0 {
                "actual : (compositor defaults \u{2014} AQ_DRM_DEVICES unset)"@
            } else {
                "actual : "@ + text::joined(d, ":"@)
            },
        }),
{
    match actual {
        None => String::from_str("actual : (no Hyprland session found)"),
        Some(list) => {
            if list.len() == 0 {
                String::from_str("actual : (compositor defaults \u{2014} AQ_DRM_DEVICES unset)")
            } else {
                text::concat2("actual : ", text::join(list, ":").as_str())
            }
        },
    }
}

/// The line about what a selection would give now.
pub fn desired_line(
    desired: &Option<Vec<String>>,
    reason: &str,
    mode: GpuMode,
    source: GpuModeSource,
) -> (r: String)
    ensures
        r@ == (match devices_of(*desired) {
            None => "desired: (unmanaged \u{2014} "@ + reason@ + ")"@,
            Some(d) => "desired: "@ + text::joined(d, ":"@) + "  (mode="@ + mode.word() + "/"@
                + source.word() + ", "@ + reason@ + ")"@,
        }),
{
    match desired {
        None => text::concat3("desired: (unmanaged \u{2014} ", reason, ")"),
        Some(list) => {
            let mut out = text::concat3("desired: ", text::join(list, ":").as_str(), "  (mode=");
            out.append(mode.as_str());
            out.append("/");
            out.append(source.as_str());
            out.append(", ");
            out.append(reason);
            out.append(")");
            out
        },
    }
}

/// The line about whether the session runs on what a selection would give; nothing where
/// one of the two is not known.
pub fn sync_line(actual: &Option<Vec<String>>, desired: &Option<Vec<String>>) -> (r: Option<
    &'static str,
>)
    ensures
        text::opt_str(r) == (match (devices_of(*actual), devices_of(*desired)) {
            (Some(a), Some(d)) => Some(
                if a == d {
                    "sync   : in sync"@
                } else {
                    "sync   : MISMATCH \u{2014} relog to apply"@
                },
            ),
            _ => None,
        }),
{
    match (actual, desired) {
        (Some(a), Some(d)) => {
            if text::strings_eq(a, d) {
                Some("sync   : in sync")
            } else {
                Some("sync   : MISMATCH \u{2014} relog to apply")
            }
        },
        _ => None,
    }
}

/// The card that the session renders on: that of its first device.
pub open spec fn primary_of(actual: Option<Seq<Seq<char>>>) -> Option<Seq<char>> {
    match actual {
        Some(d) => if d.len() > 0 {
            Some(text::after_last(d[0], '/'))
        } else {
            None
        },
        None => None,
    }
}

/// The card that the session renders on.
pub fn primary_card(actual: &Option<Vec<String>>) -> (r: Option<String>)
    ensures
        text::opt_string(r) == primary_of(devices_of(*actual)),
{
    match actual {
        Some(list) => {
            if list.len() > 0 {
                assert(text::strings(list@)[0] == list@[0]@);
                Some(String::from_str(text::last_piece(list[0].as_str(), '/')))
            } else {
                None
            }
        },
        None => None,
    }
}

/// Whether the session runs on what a selection would give. A session that was left to
/// the compositor's defaults is not managed, nor is one that a selection would leave so.
pub open spec fn verdict_of(
    actual: Option<Seq<Seq<char>>>,
    desired: Option<Seq<Seq<char>>>,
) -> Seq<char> {
    match (actual, desired) {
        (Some(a), Some(d)) => if a.len() == 0 {
            "unmanaged"@
        } else if a == d {
            "in sync"@
        } else {
            "MISMATCH (relog to apply: "@ + text::joined(d, ":"@) + ")"@
        },
        _ => "unmanaged"@,
    }
}

/// The selection in one line.
pub fn summary_line(
    actual: &Option<Vec<String>>,
    desired: &Option<Vec<String>>,
    mode: GpuMode,
    reason: &str,
) -> (r: String)
    ensures
        r@ == "gpu: primary="@ + (match primary_of(devices_of(*actual)) {
            Some(card) => card,
            None => "unknown"@,
        }) + " mode="@ + mode.word() + " reason="@ + reason@ + " \u{2014} "@ + verdict_of(
            devices_of(*actual),
            devices_of(*desired),
        ),
{
    let card = match primary_card(actual) {
        Some(card) => card,
        None => String::from_str("unknown"),
    };
    let mut out = text::concat3("gpu: primary=", card.as_str(), " mode=");
    out.append(mode.as_str());
    out.append(" reason=");
    out.append(reason);
    out.append(" \u{2014} ");
    let verdict = match (actual, desired) {
        (Some(a), Some(d)) => {
            if a.len() == 0 {
                String::from_str("unmanaged")
            } else if text::strings_eq(a, d) {
                String::from_str("in sync")
            } else {
                text::concat3("MISMATCH (relog to apply: ", text::join(d, ":").as_str(), ")")
            }
        },
        _ => String::from_str("unmanaged"),
    };
    out.append(verdict.as_str());
    out
}

/// How an output is fed: by the card that renders, or by a copy to another card.
pub open spec fn route_of(card: Seq<char>, primary: Option<Seq<char>>) -> Seq<char> {
    match primary {
        Some(p) => if p == card {
            "render-local (no copy)"@
        } else {
            "COPY PATH "@ + card + "->"@ + p
        },
        None => "render GPU unknown"@,
    }
}

/// The line about one output.
pub fn output_line(connector: &str, card: &str, primary: Option<&str>) -> (r: String)
    ensures
        r@ == "         "@ + text::padded(connector@, 8) + " "@ + card@ + "  "@ + route_of(
            card@,
            text::opt_str(primary),
        ),
{
    let mut out = text::concat3("         ", text::pad(connector, 8).as_str(), " ");
    out.append(card);
    out.append("  ");
    match primary {
        Some(p) => {
            if text::str_eq(p, card) {
                out.append("render-local (no copy)");
            } else {
                out.append(text::concat3("COPY PATH ", card, "->").as_str());
                out.append(p);
            }
        },
        None => {
            out.append("render GPU unknown");
        },
    }
    out
}

// ------------------------------------------------------------------------- laws

/// A list that is printed has all its devices.
pub proof fn printed_lists_are_whole(
    devices: Seq<Seq<char>>,
    reason: Seq<char>,
    exist: Seq<bool>,
    i: int,
)
    requires
        validated(Some(devices), reason, exist).0 is Some,
        0 <= i < devices.len(),
    ensures
        validated(Some(devices), reason, exist) == (Some(devices), reason),
        i < exist.len() && exist[i],
{
    assert(i < exist.len() && exist[i]) by {
        let there = exist[i];
    }
}

/// A selection with a device missing is dropped as a whole.
pub proof fn broken_lists_are_dropped(
    devices: Seq<Seq<char>>,
    reason: Seq<char>,
    exist: Seq<bool>,
    i: int,
)
    requires
        0 <= i < devices.len(),
        i < exist.len() && !exist[i],
    ensures
        validated(Some(devices), reason, exist) == (
            None::<Seq<Seq<char>>>,
            "validation-failed"@,
        ),
{
}

} // verus!
