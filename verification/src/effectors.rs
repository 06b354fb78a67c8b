//! What the daemon does to the world: fire-and-forget commands and how each is run.
use vstd::prelude::*;

use crate::hyprctl::EDP_MONITOR;
use crate::number;
use crate::text;

verus! {

/// What a notification is about.
#[derive(Debug, Clone, Copy, PartialEq, Eq, Structural)]
pub enum Topic {
    Power,
    Gpu,
}

impl Topic {
    /// The headline of a notification.
    pub open spec fn headline(self) -> Seq<char> {
        match self {
            Topic::Power => "Power profile"@,
            Topic::Gpu => "GPU selection drift"@,
        }
    }

    /// The tag under which a notification replaces the one before it.
    pub open spec fn slot(self) -> Seq<char> {
        match self {
            Topic::Power => "hyprstate-power"@,
            Topic::Gpu => "hyprstate-gpu"@,
        }
    }

    /// The headline of a notification.
    pub fn summary(self) -> (r: &'static str)
        ensures
            r@ == self.headline(),
    {
        match self {
            Topic::Power => "Power profile",
            Topic::Gpu => "GPU selection drift",
        }
    }

    /// The tag under which a notification replaces the one before it.
    pub fn tag(self) -> (r: &'static str)
        ensures
            r@ == self.slot(),
    {
        match self {
            Topic::Power => "hyprstate-power",
            Topic::Gpu => "hyprstate-gpu",
        }
    }
}

/// A fire-and-forget effect, with texts of type `S`. Commands are run one after
/// another: the order between a reload and what follows it matters.
#[derive(Debug)]
pub enum Cmd<S> {
    /// Make the internal panel enabled or disabled, whichever it is not yet.
    SetEdp { on: bool },
    Reload,
    /// Light every output. There is no effect that darkens one.
    DpmsOn,
    PauseMedia,
    Notify { topic: Topic, body: S },
    /// A hook that the user wrote, for a shell.
    RunHook(S),
    /// Move the workspaces that are stranded on the internal panel.
    RehomeWorkspaces,
}

impl View for Cmd<String> {
    type V = Cmd<Seq<char>>;

    open spec fn view(&self) -> Cmd<Seq<char>> {
        match self {
            Cmd::SetEdp { on } => Cmd::SetEdp { on: *on },
            Cmd::Reload => Cmd::Reload,
            Cmd::DpmsOn => Cmd::DpmsOn,
            Cmd::PauseMedia => Cmd::PauseMedia,
            Cmd::Notify { topic, body } => Cmd::Notify { topic: *topic, body: body@ },
            Cmd::RunHook(h) => Cmd::RunHook(h@),
            Cmd::RehomeWorkspaces => Cmd::RehomeWorkspaces,
        }
    }
}

/// A program to run with its arguments.
#[derive(Debug)]
pub struct Invocation {
    pub program: &'static str,
    pub args: Vec<String>,
}

/// What an invocation holds.
#[verifier::ext_equal]
pub struct InvocationView {
    pub program: Seq<char>,
    pub args: Seq<Seq<char>>,
}

impl View for Invocation {
    type V = InvocationView;

    open spec fn view(&self) -> InvocationView {
        InvocationView { program: self.program@, args: text::strings(self.args@) }
    }
}

/// What each invocation of a list holds.
pub open spec fn invocations(s: Seq<Invocation>) -> Seq<InvocationView> {
    Seq::new(s.len(), |i: int| s[i]@)
}

/// An invocation of a program with given arguments.
pub open spec fn invoking(program: Seq<char>, args: Seq<Seq<char>>) -> InvocationView {
    InvocationView { program, args }
}

/// How a command is run, given whether the panel is disabled (`None`: there is no
/// panel). A panel that already is as wanted, or is not there, needs nothing:
/// reloading for it would trigger the very event that asks for it.
pub open spec fn plan_of(cmd: Cmd<Seq<char>>, edp_disabled: Option<bool>) -> Option<
    InvocationView,
> {
    match cmd {
        Cmd::SetEdp { on } => match edp_disabled {
            None => None,
            Some(disabled) => if on && disabled {
                Some(invoking("hyprctl"@, seq!["reload"@]))
            } else if !on && !disabled {
                Some(
                    invoking(
                        "hyprctl"@,
                        seq!["keyword"@, "monitor"@, EDP_MONITOR@ + ",disable"@],
                    ),
                )
            } else {
                None
            },
        },
        Cmd::Reload => Some(invoking("hyprctl"@, seq!["reload"@])),
        Cmd::DpmsOn => Some(invoking("hyprctl"@, seq!["dispatch"@, "dpms"@, "on"@])),
        Cmd::PauseMedia => Some(invoking("playerctl"@, seq!["--all-players"@, "pause"@])),
        Cmd::Notify { topic, body } => Some(
            invoking(
                "notify-send"@,
                seq![
                    "-a"@,
                    "hyprstate"@,
                    "-h"@,
                    "string:x-canonical-private-synchronous:"@ + topic.slot(),
                    topic.headline(),
                    body,
                ],
            ),
        ),
        Cmd::RunHook(h) => Some(invoking("bash"@, seq!["-lc"@, h])),
        Cmd::RehomeWorkspaces => None,
    }
}

/// How a command is run.
pub fn plan(cmd: &Cmd<String>, edp_disabled: Option<bool>) -> (r: Option<Invocation>)
    ensures
        match r {
            Some(i) => plan_of(cmd@, edp_disabled) == Some(i@),
            None => plan_of(cmd@, edp_disabled) is None,
        },
{
    match cmd {
        Cmd::SetEdp { on } => {
            match edp_disabled {
                None => None,
                Some(disabled) => {
                    if *on && disabled {
                        let i = Invocation {
                            program: "hyprctl",
                            args: vec![String::from_str("reload")],
                        };
                        assert(i@ =~= invoking("hyprctl"@, seq!["reload"@]));
                        Some(i)
                    } else if !*on && !disabled {
                        let i = Invocation {
                            program: "hyprctl",
                            args: vec![
                                String::from_str("keyword"),
                                String::from_str("monitor"),
                                text::concat2(EDP_MONITOR, ",disable"),
                            ],
                        };
                        assert(i@ =~= invoking(
                            "hyprctl"@,
                            seq!["keyword"@, "monitor"@, EDP_MONITOR@ + ",disable"@],
                        ));
                        Some(i)
                    } else {
                        None
                    }
                },
            }
        },
        Cmd::Reload => {
            let i = Invocation { program: "hyprctl", args: vec![String::from_str("reload")] };
            assert(i@ =~= invoking("hyprctl"@, seq!["reload"@]));
            Some(i)
        },
        Cmd::DpmsOn => {
            let i = Invocation {
                program: "hyprctl",
                args: vec![
                    String::from_str("dispatch"),
                    String::from_str("dpms"),
                    String::from_str("on"),
                ],
            };
            assert(i@ =~= invoking("hyprctl"@, seq!["dispatch"@, "dpms"@, "on"@]));
            Some(i)
        },
        Cmd::PauseMedia => {
            let i = Invocation {
                program: "playerctl",
                args: vec![String::from_str("--all-players"), String::from_str("pause")],
            };
            assert(i@ =~= invoking("playerctl"@, seq!["--all-players"@, "pause"@]));
            Some(i)
        },
        Cmd::Notify { topic, body } => {
            let i = Invocation {
                program: "notify-send",
                args: vec![
                    String::from_str("-a"),
                    String::from_str("hyprstate"),
                    String::from_str("-h"),
                    text::concat2("string:x-canonical-private-synchronous:", topic.tag()),
                    String::from_str(topic.summary()),
                    body.clone(),
                ],
            };
            assert(i@.args =~= plan_of(cmd@, edp_disabled)->0.args);
            Some(i)
        },
        Cmd::RunHook(h) => {
            let i = Invocation { program: "bash", args: vec![String::from_str("-lc"), h.clone()] };
            assert(i@ =~= invoking("bash"@, seq!["-lc"@, h@]));
            Some(i)
        },
        Cmd::RehomeWorkspaces => None,
    }
}

/// The invocations that move given workspaces to a monitor, one each.
pub open spec fn rehoming(ids: Seq<int>, target: Option<Seq<char>>) -> Seq<InvocationView> {
    match target {
        None => seq![],
        Some(m) => Seq::new(
            ids.len(),
            |i: int|
                invoking(
                    "hyprctl"@,
                    seq![
                        "dispatch"@,
                        "moveworkspacetomonitor"@,
                        number::signed_decimal(ids[i]) + " "@ + m,
                    ],
                ),
        ),
    }
}

/// How stranded workspaces are moved to an external monitor; nothing where there is
/// none to receive them.
pub fn rehome_plan(ids: &Vec<i64>, target: &Option<String>) -> (r: Vec<Invocation>)
    ensures
        invocations(r@) == rehoming(crate::hyprctl::ints(ids@), text::opt_string(*target)),
{
    let mut out: Vec<Invocation> = Vec::new();
    match target {
        None => {
            assert(invocations(out@) =~= Seq::<InvocationView>::empty());
        },
        Some(m) => {
            let mut i: usize = 0;
            while i < ids.len()
                invariant
                    i <= ids@.len(),
                    out@.len() == i,
                    forall|k: int|
                        0 <= k < i ==> (#[trigger] out@[k])@ == invoking(
                            "hyprctl"@,
                            seq![
                                "dispatch"@,
                                "moveworkspacetomonitor"@,
                                number::signed_decimal(ids@[k] as int) + " "@ + m@,
                            ],
                        ),
                decreases ids@.len() - i,
            {
                let id = number::i64_text(ids[i]);
                let arg = text::concat3(id.as_str(), " ", m.as_str());
                let v = Invocation {
                    program: "hyprctl",
                    args: vec![
                        String::from_str("dispatch"),
                        String::from_str("moveworkspacetomonitor"),
                        arg,
                    ],
                };
                assert(v@ =~= invoking(
                    "hyprctl"@,
                    seq!["dispatch"@, "moveworkspacetomonitor"@, arg@],
                ));
                out.push(v);
                i += 1;
            }
            assert(invocations(out@) =~= rehoming(
                crate::hyprctl::ints(ids@),
                text::opt_string(*target),
            ));
        },
    }
    out
}

// ---------------------------------------------------------------------- laws

/// A panel that already is as wanted is left alone, and so is a machine without one.
pub proof fn settled_panel_is_left_alone(on: bool)
    ensures
        plan_of(Cmd::SetEdp { on }, None) is None,
        plan_of(Cmd::SetEdp { on }, Some(!on)) is None,
        plan_of(Cmd::SetEdp { on }, Some(on)) is Some,
{
}

} // verus!
