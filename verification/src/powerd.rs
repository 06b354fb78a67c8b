//! The power service: who may call it, and which of several calls is carried out.
use vstd::prelude::*;

use crate::power::PowerProfile;
use crate::text;

verus! {

/// The action that callers must be authorized for.
pub const ACTION_ID: &'static str = "org.hyprstate.power1.manage";

/// The object path of the service.
pub const POWERD_PATH: &'static str = "/org/hyprstate/Power1";

/// Whether a caller may go on. `verdict`: what the authority said; `None` where it could
/// not be reached or failed. Anything but a clear yes to a caller with a name is a no.
pub fn caller_authorized(sender: &str, verdict: Option<bool>) -> (r: bool)
    ensures
        r == (sender@.len() > 0 && verdict == Some(true)),
{
    if sender.unicode_len() == 0 {
        return false;
    }
    match verdict {
        Some(b) => b,
        None => false,
    }
}

/// What a caller is told who may not go on.
pub fn denial(sender: &str) -> (r: String)
    ensures
        r@ == "caller "@ + text::debug_of(sender@) + " not authorized for "@ + ACTION_ID@
            + " (active local session required)"@,
{
    let mut out = text::quoted("caller ", sender);
    out.append(" not authorized for ");
    out.append(ACTION_ID);
    out.append(" (active local session required)");
    out
}

/// What a caller is told who asked for no profile.
pub open spec fn invalid_profile(word: Seq<char>) -> Seq<char> {
    "profile must be one of power-saver|balanced|performance, got "@ + text::debug_of(word)
}

/// The state of the service.
#[derive(Debug, Clone, Copy, PartialEq, Eq, Structural)]
pub struct Power1 {
    /// The profile in force.
    pub active: PowerProfile,
    /// The profile that was asked for last.
    pub latest: Option<PowerProfile>,
    pub aspm_writable: bool,
}

/// What becomes of a call when its turn comes.
#[derive(Debug, Clone, Copy, PartialEq, Eq, Structural)]
pub enum Turn {
    /// The profile is to be applied.
    Apply,
    /// A later call asked for this one.
    SupersededBy(PowerProfile),
    /// No call is on record.
    Unknown,
}

impl Power1 {
    /// A service that starts with a kept profile.
    pub fn new(active: PowerProfile, aspm_writable: bool) -> (r: Power1)
        ensures
            r == (Power1 { active, latest: None, aspm_writable }),
    {
        Power1 { active, latest: None, aspm_writable }
    }

    /// The service after somebody asked for a profile.
    pub open spec fn asked(self, p: PowerProfile) -> Power1 {
        Power1 { latest: Some(p), ..self }
    }

    /// What becomes of a call when its turn comes.
    pub open spec fn turn_of(self, p: PowerProfile) -> Turn {
        match self.latest {
            Some(q) => if p == q {
                Turn::Apply
            } else {
                Turn::SupersededBy(q)
            },
            None => Turn::Unknown,
        }
    }

    /// Takes a call in: what it asks for is on record at once, before its turn comes.
    pub fn request(&mut self, word: &str) -> (r: Result<PowerProfile, String>)
        ensures
            match r {
                Ok(p) => PowerProfile::of_word(word@) == Some(p) && *final(self) == old(self).asked(p),
                Err(m) => PowerProfile::of_word(word@) is None && *final(self) == *old(self) && m@
                    == invalid_profile(word@),
            },
    {
        match PowerProfile::from_str(word) {
            Ok(p) => {
                self.latest = Some(p);
                Ok(p)
            },
            Err(_) => Err(
                text::quoted(
                    "profile must be one of power-saver|balanced|performance, got ",
                    word,
                ),
            ),
        }
    }

    /// Decides what becomes of a call when its turn comes.
    pub fn turn(&self, p: PowerProfile) -> (r: Turn)
        ensures
            r == self.turn_of(p),
    {
        match self.latest {
            Some(q) => {
                if q == p {
                    Turn::Apply
                } else {
                    Turn::SupersededBy(q)
                }
            },
            None => Turn::Unknown,
        }
    }

    /// A profile was applied.
    pub fn applied(&mut self, p: PowerProfile)
        ensures
            *final(self) == (Power1 { active: p, ..*old(self) }),
    {
        self.active = p;
    }
}

impl Turn {
    /// What a call is answered that is not carried out.
    pub open spec fn note(self) -> Option<Seq<char>> {
        match self {
            Turn::Apply => None,
            Turn::SupersededBy(p) => Some("superseded-by:"@ + p.word()),
            Turn::Unknown => Some("superseded-by:?"@),
        }
    }

    /// What a call is answered that is not carried out.
    pub fn coalesced(self) -> (r: Option<String>)
        ensures
            text::opt_string(r) == self.note(),
    {
        match self {
            Turn::Apply => None,
            Turn::SupersededBy(p) => Some(text::concat2("superseded-by:", p.as_str())),
            Turn::Unknown => Some(String::from_str("superseded-by:?")),
        }
    }
}

// ------------------------------------------------------------------------- laws

/// The service after a burst of calls.
pub open spec fn after_burst(s: Power1, calls: Seq<PowerProfile>) -> Power1
    decreases calls.len(),
{
    if calls.len() == 0 {
        s
    } else {
        after_burst(s, calls.drop_last()).asked(calls.last())
    }
}

/// Of a burst of calls only the profile asked for last is applied; all others fall
/// through, and are told which one it was.
pub proof fn last_call_wins(s: Power1, calls: Seq<PowerProfile>, p: PowerProfile)
    requires
        calls.len() > 0,
    ensures
        after_burst(s, calls).turn_of(p) == (if p == calls.last() {
            Turn::Apply
        } else {
            Turn::SupersededBy(calls.last())
        }),
{
}

/// A call that falls through leaves the profile in force alone: asking alone changes
/// nothing of it.
pub proof fn asking_applies_nothing(s: Power1, calls: Seq<PowerProfile>)
    ensures
        after_burst(s, calls).active == s.active,
    decreases calls.len(),
{
    if calls.len() > 0 {
        asking_applies_nothing(s, calls.drop_last());
    }
}

} // verus!
