//! The `suspend` command: a request into the machinery of the daemon. It never suspends
//! anything itself.
use vstd::prelude::*;

use crate::power::LidMode;
use crate::text;

verus! {

/// What the command does.
#[derive(Debug, Clone, Copy, PartialEq, Eq, Structural)]
pub enum SuspendVerb {
    /// The request is put down.
    Request,
    /// The request is taken back.
    Cancel,
    /// Tell whether there is one.
    Status,
}

/// The word that a request of the command holds. The daemon's own holds another.
pub const IDLE_REQUEST: &'static str = "idle\n";

/// The word that a request of the daemon itself holds.
pub const BATTERY_LOW_REQUEST: &'static str = "battery-low\n";

/// A request is the daemon's own.
pub open spec fn is_own(content: Seq<char>) -> bool {
    text::first_word_of(content) == Some("battery-low"@)
}

/// Whether a standing request is the daemon's own, which alone it may take back.
pub fn is_own_request(content: Option<&str>) -> (r: bool)
    ensures
        r == (content matches Some(c) && is_own(c@)),
{
    match content {
        Some(c) => match text::first_word(c) {
            Some(w) => text::str_eq(w, "battery-low"),
            None => false,
        },
        None => false,
    }
}

pub open spec fn verb_of(action: Seq<char>) -> Option<SuspendVerb> {
    if action == "request"@ {
        Some(SuspendVerb::Request)
    } else if action == "cancel"@ {
        Some(SuspendVerb::Cancel)
    } else if action == "status"@ {
        Some(SuspendVerb::Status)
    } else {
        None
    }
}

/// What the command does, by its word.
pub fn suspend_verb(action: &str) -> (r: Option<SuspendVerb>)
    ensures
        r == verb_of(action@),
{
    if text::str_eq(action, "request") {
        Some(SuspendVerb::Request)
    } else if text::str_eq(action, "cancel") {
        Some(SuspendVerb::Cancel)
    } else if text::str_eq(action, "status") {
        Some(SuspendVerb::Status)
    } else {
        None
    }
}

/// The complaint about a word that is no action.
pub fn unknown_action(action: &str) -> (r: String)
    ensures
        r@ == "hyprstate suspend: unknown action "@ + text::debug_of(action@),
{
    text::quoted("hyprstate suspend: unknown action ", action)
}

/// How the command ends after it worked on the file: a request that cannot be taken back
/// because there is none is no failure.
pub fn exit_code(verb: SuspendVerb, failed: bool, not_found: bool) -> (r: i32)
    ensures
        r == (if !failed || verb == SuspendVerb::Status || (verb == SuspendVerb::Cancel
            && not_found) {
            0i32
        } else {
            1
        }),
{
    match verb {
        SuspendVerb::Request => {
            if failed {
                1
            } else {
                0
            }
        },
        SuspendVerb::Cancel => {
            if failed && !not_found {
                1
            } else {
                0
            }
        },
        SuspendVerb::Status => 0,
    }
}

/// The complaint about a file that could not be worked on.
pub fn failure_line(verb: SuspendVerb, path: &str, error: &str) -> (r: String)
    ensures
        r@ == "hyprstate suspend "@ + (match verb {
            SuspendVerb::Request => "request"@,
            SuspendVerb::Cancel => "cancel"@,
            SuspendVerb::Status => "status"@,
        }) + ": "@ + path@ + ": "@ + error@,
{
    let word = match verb {
        SuspendVerb::Request => "request",
        SuspendVerb::Cancel => "cancel",
        SuspendVerb::Status => "status",
    };
    let mut out = text::concat3("hyprstate suspend ", word, ": ");
    out.append(path);
    out.append(": ");
    out.append(error);
    out
}

/// What status says.
pub fn status_line(standing: bool, path: &str) -> (r: String)
    ensures
        r@ == if standing {
            "idle-suspend request: standing ("@ + path@ + ")"@
        } else {
            "idle-suspend request: none"@
        },
{
    if standing {
        text::concat3("idle-suspend request: standing (", path, ")")
    } else {
        String::from_str("idle-suspend request: none")
    }
}

/// The line about the lid in the summary.
pub fn lid_line(lid: LidMode) -> (r: &'static str)
    ensures
        r@ == (match lid {
            LidMode::Absent => "lid: absent (power.conf) \u{2014} no handle-lid-switch inhibitor expected"@,
            LidMode::Present => "lid: present \u{2014} handle-lid-switch inhibitor held by hyprstate"@,
        }),
{
    match lid {
        LidMode::Absent => "lid: absent (power.conf) \u{2014} no handle-lid-switch inhibitor expected",
        LidMode::Present => "lid: present \u{2014} handle-lid-switch inhibitor held by hyprstate",
    }
}

// ------------------------------------------------------------------------- laws

/// The daemon takes back what it asked for itself, and nothing that was asked for by the
/// command.
pub proof fn requests_are_told_apart()
    ensures
        is_own(BATTERY_LOW_REQUEST@),
        !is_own(IDLE_REQUEST@),
{
    reveal_strlit("battery-low\n");
    reveal_strlit("battery-low");
    reveal_strlit("idle\n");
    reveal_strlit("idle");
    reveal_strlit("\n");
    assert("battery-low\n"@ =~= "battery-low"@ + "\n"@);
    assert("idle\n"@ =~= "idle"@ + "\n"@);
    text::a_word_is_found("battery-low"@, "\n"@);
    text::a_word_is_found("idle"@, "\n"@);
    assert("idle"@.len() != "battery-low"@.len());
}

} // verus!
