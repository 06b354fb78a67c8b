//! Event sources: what becomes of what the sources read.
use vstd::prelude::*;

use crate::event::{Event, ReconcileSnapshot};
use crate::fsm::EventKind;
use crate::hypr_instance;
use crate::hypridle_log;
use crate::hypridle_log::{wayland_inhibitor_active, ParseHealth};
use crate::text;

verus! {

// ------------------------------------------------------------ the event socket

/// What was read of one instance directory of the compositor.
#[derive(Debug)]
pub struct Instance {
    /// The lock file.
    pub lock: Option<String>,
    /// The command name of the process that the lock file names.
    pub comm: Option<String>,
    /// There is an event socket.
    pub socket: bool,
}

impl Instance {
    /// A live compositor owns the directory, and it has an event socket.
    pub open spec fn is_live(self) -> bool {
        &&& self.lock matches Some(l) && hypr_instance::pid_in(l@) is Some
        &&& self.comm matches Some(c) && text::trimmed(c@) == "Hyprland"@
        &&& self.socket
    }
}

/// Which event socket to connect to.
#[derive(Debug, Clone, Copy, PartialEq, Eq, Structural)]
pub enum SocketChoice {
    /// The one of the instance that the environment names.
    Named,
    /// The one of a scanned instance directory.
    Scanned(usize),
    Nowhere,
}

fn live(i: &Instance) -> (r: bool)
    ensures
        r == i.is_live(),
{
    let pid = hypr_instance::hyprland_pid(text::opt_as_str(&i.lock), text::opt_as_str(&i.comm));
    pid.is_some() && i.socket
}

/// Picks the event socket: that of the instance that the environment names, unless it
/// is gone because the compositor was restarted; otherwise the first live one.
pub fn socket2_path(named_exists: bool, found: &Vec<Instance>) -> (r: SocketChoice)
    ensures
        match r {
            SocketChoice::Named => named_exists,
            SocketChoice::Scanned(i) => !named_exists && i < found@.len() && found@[i as int].is_live()
                && forall|k: int| 0 <= k < i ==> !(#[trigger] found@[k]).is_live(),
            SocketChoice::Nowhere => !named_exists && forall|k: int|
                0 <= k < found@.len() ==> !(#[trigger] found@[k]).is_live(),
        },
{
    if named_exists {
        return SocketChoice::Named;
    }
    let mut i: usize = 0;
    while i < found.len()
        invariant
            i <= found@.len(),
            !named_exists,
            forall|k: int| 0 <= k < i ==> !(#[trigger] found@[k]).is_live(),
        decreases found@.len() - i,
    {
        if live(&found[i]) {
            return SocketChoice::Scanned(i);
        }
        i += 1;
    }
    SocketChoice::Nowhere
}

/// What a line of the event socket says.
pub enum SocketLine {
    Added(Seq<char>),
    Removed(Seq<char>),
    Reloaded,
    Other,
}

/// What a line of the event socket says. An added monitor is reported as id, name and
/// description.
pub open spec fn socket_line(s: Seq<char>) -> SocketLine {
    if text::has_prefix(s, "monitoraddedv2>>"@) {
        let parts = text::split_of(s.skip("monitoraddedv2>>"@.len() as int), ',');
        SocketLine::Added(
            if parts.len() > 1 {
                parts[1]
            } else {
                seq![]
            },
        )
    } else if text::has_prefix(s, "monitorremoved>>"@) {
        SocketLine::Removed(s.skip("monitorremoved>>"@.len() as int))
    } else if text::has_prefix(s, "configreloaded"@) {
        SocketLine::Reloaded
    } else {
        SocketLine::Other
    }
}

/// The event says what the line says.
pub open spec fn says(ev: Option<Event>, line: SocketLine) -> bool {
    match line {
        SocketLine::Added(n) => ev matches Some(Event::MonitorHotplug { added, name }) && added
            && name@ == n,
        SocketLine::Removed(n) => ev matches Some(Event::MonitorHotplug { added, name }) && !added
            && name@ == n,
        SocketLine::Reloaded => ev matches Some(Event::ConfigReloaded),
        SocketLine::Other => ev is None,
    }
}

/// The event that a line of the event socket stands for.
pub fn socket_event(line: &str) -> (r: Option<Event>)
    ensures
        says(r, socket_line(line@)),
{
    match text::strip_prefix(line, "monitoraddedv2>>") {
        Some(rest) => {
            let parts = text::split(rest, ',');
            let name = if parts.len() > 1 {
                assert(text::strs(parts@)[1] == parts@[1]@);
                String::from_str(parts[1])
            } else {
                let empty = String::new();
                assert(empty@ =~= seq![]);
                empty
            };
            return Some(Event::MonitorHotplug { added: true, name });
        },
        None => {},
    }
    match text::strip_prefix(line, "monitorremoved>>") {
        Some(rest) => {
            return Some(Event::MonitorHotplug { added: false, name: String::from_str(rest) });
        },
        None => {},
    }
    if text::starts_with(line, "configreloaded") {
        Some(Event::ConfigReloaded)
    } else {
        None
    }
}

// ----------------------------------------------------------------- inhibitors

/// Holders of inhibitors that do not count: services that always hold one, and the
/// daemon itself under its present and its former names.
pub open spec fn is_baseline(who: Seq<char>) -> bool {
    ||| who == "ModemManager"@
    ||| who == "NetworkManager"@
    ||| who == "UPower"@
    ||| who == "hypridle"@
    ||| who == "logind-idle-control"@
    ||| who == "hyprstate"@
    ||| who == "hypr-power"@
    ||| who == "hypr-fsm"@
}

/// Whether a holder of an inhibitor does not count.
pub fn inhibit_baseline_who(who: &str) -> (r: bool)
    ensures
        r == is_baseline(who@),
{
    text::str_eq(who, "ModemManager") || text::str_eq(who, "NetworkManager") || text::str_eq(
        who,
        "UPower",
    ) || text::str_eq(who, "hypridle") || text::str_eq(who, "logind-idle-control") || text::str_eq(
        who,
        "hyprstate",
    ) || text::str_eq(who, "hypr-power") || text::str_eq(who, "hypr-fsm")
}

/// An inhibitor as the login manager lists it.
#[derive(Debug)]
pub struct InhibitorRow {
    pub who: String,
    pub what: String,
    pub mode: String,
}

impl InhibitorRow {
    /// The inhibitor keeps the machine awake and counts.
    pub open spec fn is_real(self) -> bool {
        let what = text::split_of(self.what@, ':');
        &&& self.mode@ == "block"@
        &&& what.contains("idle"@) || what.contains("sleep"@)
        &&& !is_baseline(self.who@)
    }

    /// Whether the inhibitor keeps the machine awake and counts.
    pub fn keeps_awake(&self) -> (r: bool)
        ensures
            r == self.is_real(),
    {
        if !text::str_eq(self.mode.as_str(), "block") {
            return false;
        }
        let what = text::split(self.what.as_str(), ':');
        let ghost want = text::split_of(self.what@, ':');
        let mut held = false;
        let mut i: usize = 0;
        while i < what.len()
            invariant
                i <= what@.len(),
                text::strs(what@) == want,
                held == exists|k: int|
                    0 <= k < i && (#[trigger] want[k] == "idle"@ || want[k] == "sleep"@),
            decreases what@.len() - i,
        {
            assert(want[i as int] == what@[i as int]@);
            if text::str_eq(what[i], "idle") || text::str_eq(what[i], "sleep") {
                held = true;
            }
            i += 1;
        }
        assert(held == (want.contains("idle"@) || want.contains("sleep"@)));
        held && !inhibit_baseline_who(self.who.as_str())
    }
}

/// Somebody who counts keeps the machine awake.
pub open spec fn any_real(rows: Seq<InhibitorRow>) -> bool {
    exists|i: int| 0 <= i < rows.len() && (#[trigger] rows[i]).is_real()
}

fn has_real(rows: &Vec<InhibitorRow>) -> (r: bool)
    ensures
        r == any_real(rows@),
{
    let mut i: usize = 0;
    while i < rows.len()
        invariant
            i <= rows@.len(),
            forall|k: int| 0 <= k < i ==> !(#[trigger] rows@[k]).is_real(),
        decreases rows@.len() - i,
    {
        if rows[i].keeps_awake() {
            assert(rows@[i as int].is_real());
            return true;
        }
        i += 1;
    }
    false
}

/// Whether somebody who counts keeps the machine awake. `None`: nothing could be
/// listed.
pub fn logind_real_inhibitor_active(rows: Option<&Vec<InhibitorRow>>) -> (r: Option<bool>)
    ensures
        match rows {
            Some(v) => r == Some(any_real(v@)),
            None => r is None,
        },
{
    match rows {
        None => None,
        Some(v) => Some(has_real(v)),
    }
}

/// What the inhibitor poller remembers.
#[derive(Debug, Clone, Copy, PartialEq, Eq, Structural)]
pub struct InhibitorPoller {
    pub logind: bool,
    pub wayland: bool,
    pub health: ParseHealth,
}

impl InhibitorPoller {
    /// A poller that has seen nothing.
    pub fn new() -> (r: Self)
        ensures
            r == (InhibitorPoller {
                logind: false,
                wayland: false,
                health: ParseHealth::Healthy,
            }),
    {
        InhibitorPoller { logind: false, wayland: false, health: ParseHealth::Healthy }
    }

    /// The poller after a poll. A login manager that did not answer is taken to be
    /// unchanged.
    pub open spec fn polled(self, logind: Option<bool>, tail: Option<Seq<char>>) -> InhibitorPoller {
        let (wayland, health) = hypridle_log::inhibitor_of(tail);
        InhibitorPoller {
            logind: match logind {
                Some(b) => b,
                None => self.logind,
            },
            wayland,
            health,
        }
    }

    /// The events between two polls.
    pub open spec fn edges(self, next: InhibitorPoller) -> Seq<Event> {
        (if self.logind != next.logind {
            seq![Event::Inhibitor { wayland: false, active: next.logind }]
        } else {
            seq![]
        }) + (if self.wayland != next.wayland {
            seq![Event::Inhibitor { wayland: true, active: next.wayland }]
        } else {
            seq![]
        })
    }

    /// Polls the inhibitors: an event for each kind that changed.
    pub fn poll(&mut self, logind: Option<bool>, tail: Option<&str>) -> (r: Vec<Event>)
        ensures
            *final(self) == old(self).polled(logind, text::opt_str(tail)),
            r@ == old(self).edges(*final(self)),
    {
        let cur_logind = match logind {
            Some(b) => b,
            None => self.logind,
        };
        let (cur_wayland, health) = wayland_inhibitor_active(tail);
        let mut out: Vec<Event> = Vec::new();
        let ghost before = *self;
        self.health = health;
        if cur_logind != self.logind {
            self.logind = cur_logind;
            out.push(Event::Inhibitor { wayland: false, active: cur_logind });
        }
        if cur_wayland != self.wayland {
            self.wayland = cur_wayland;
            out.push(Event::Inhibitor { wayland: true, active: cur_wayland });
        }
        assert(out@ =~= before.edges(*self));
        out
    }
}

// ----------------------------------------------------------------- mode files

/// What the mode poller remembers: the first words of `platform_profile`, of the two
/// override files and of the suspend request, and the fingerprint of the profile sources.
#[derive(Debug)]
pub struct ModePoller {
    pub platform: Option<String>,
    pub gpu: Option<String>,
    pub power: Option<String>,
    pub request: Option<String>,
    pub sources: u64,
}

/// What a [`ModePoller`] holds.
pub struct ModeView {
    pub platform: Option<Seq<char>>,
    pub gpu: Option<Seq<char>>,
    pub power: Option<Seq<char>>,
    pub request: Option<Seq<char>>,
    pub sources: u64,
}

impl View for ModePoller {
    type V = ModeView;

    open spec fn view(&self) -> ModeView {
        ModeView {
            platform: text::opt_string(self.platform),
            gpu: text::opt_string(self.gpu),
            power: text::opt_string(self.power),
            request: text::opt_string(self.request),
            sources: self.sources,
        }
    }
}

/// The kind and the word of an event that a mode file gives.
pub open spec fn word_of(ev: Event) -> Option<(EventKind, Option<Seq<char>>)> {
    match ev {
        Event::PlatformProfileChanged(w) => Some(
            (EventKind::PlatformProfileChanged, text::opt_string(w)),
        ),
        Event::GpuOverrideChanged(w) => Some((EventKind::GpuOverrideChanged, text::opt_string(w))),
        Event::PowerOverrideChanged(w) => Some(
            (EventKind::PowerOverrideChanged, text::opt_string(w)),
        ),
        Event::SuspendRequestChanged(w) => Some(
            (EventKind::SuspendRequestChanged, text::opt_string(w)),
        ),
        Event::ProfilesChanged => Some((EventKind::ProfilesChanged, None)),
        _ => None,
    }
}

pub open spec fn words_of(s: Seq<Event>) -> Seq<Option<(EventKind, Option<Seq<char>>)>> {
    s.map_values(|e: Event| word_of(e))
}

/// The event of one mode file, if its word changed.
pub open spec fn word_edge(kind: EventKind, from: Option<Seq<char>>, to: Option<Seq<char>>) -> Seq<
    Option<(EventKind, Option<Seq<char>>)>,
> {
    if from == to {
        seq![]
    } else {
        seq![Some((kind, to))]
    }
}

/// The events between two polls.
pub open spec fn mode_edges(from: ModeView, to: ModeView) -> Seq<
    Option<(EventKind, Option<Seq<char>>)>,
> {
    word_edge(EventKind::PlatformProfileChanged, from.platform, to.platform) + word_edge(
        EventKind::GpuOverrideChanged,
        from.gpu,
        to.gpu,
    ) + word_edge(EventKind::PowerOverrideChanged, from.power, to.power) + word_edge(
        EventKind::SuspendRequestChanged,
        from.request,
        to.request,
    ) + (if from.sources == to.sources {
        seq![]
    } else {
        seq![Some((EventKind::ProfilesChanged, None))]
    })
}

impl ModePoller {
    /// Polls the mode files: an event for each word that changed, and one where the
    /// profile sources did.
    pub fn poll(&mut self, now: ModePoller) -> (r: Vec<Event>)
        ensures
            final(self)@ == now@,
            words_of(r@) == mode_edges(old(self)@, now@),
    {
        let ghost before = self@;
        let mut out: Vec<Event> = Vec::new();
        if !text::opt_eq(&now.platform, &self.platform) {
            out.push(Event::PlatformProfileChanged(text::opt_clone(&now.platform)));
        }
        let ghost first = words_of(out@);
        assert(first =~= word_edge(
            EventKind::PlatformProfileChanged,
            before.platform,
            now@.platform,
        ));
        if !text::opt_eq(&now.gpu, &self.gpu) {
            out.push(Event::GpuOverrideChanged(text::opt_clone(&now.gpu)));
        }
        let ghost second = words_of(out@);
        assert(second =~= first + word_edge(EventKind::GpuOverrideChanged, before.gpu, now@.gpu));
        if !text::opt_eq(&now.power, &self.power) {
            out.push(Event::PowerOverrideChanged(text::opt_clone(&now.power)));
        }
        let ghost third = words_of(out@);
        assert(third =~= second + word_edge(
            EventKind::PowerOverrideChanged,
            before.power,
            now@.power,
        ));
        if !text::opt_eq(&now.request, &self.request) {
            out.push(Event::SuspendRequestChanged(text::opt_clone(&now.request)));
        }
        let ghost fourth = words_of(out@);
        assert(fourth =~= third + word_edge(
            EventKind::SuspendRequestChanged,
            before.request,
            now@.request,
        ));
        if now.sources != self.sources {
            out.push(Event::ProfilesChanged);
        }
        assert(words_of(out@) =~= mode_edges(before, now@));
        *self = now;
        out
    }
}

// ---------------------------------------------------------------------- charger

/// A power supply as the kernel lists it.
#[derive(Debug)]
pub struct Supply {
    pub name: String,
    /// The content of its `online` file.
    pub online: Option<String>,
}

impl Supply {
    /// The supply is a charger that tells whether it is plugged in.
    pub open spec fn is_charger(self) -> bool {
        text::has_prefix(self.name@, "A"@) && self.online is Some
    }
}

/// Whether the charger is plugged in, by the first one that tells. `None`: there is
/// none, as on a desktop.
pub fn on_ac_sysfs(supplies: &Vec<Supply>) -> (r: Option<bool>)
    ensures
        match r {
            Some(on) => exists|i: int|
                0 <= i < supplies@.len() && (#[trigger] supplies@[i]).is_charger() && on == (
                text::trimmed(supplies@[i].online->Some_0@) == "1"@) && forall|k: int|
                    0 <= k < i ==> !(#[trigger] supplies@[k]).is_charger(),
            None => forall|i: int| 0 <= i < supplies@.len() ==> !(#[trigger] supplies@[i]).is_charger(),
        },
{
    let mut i: usize = 0;
    while i < supplies.len()
        invariant
            i <= supplies@.len(),
            forall|k: int| 0 <= k < i ==> !(#[trigger] supplies@[k]).is_charger(),
        decreases supplies@.len() - i,
    {
        if text::starts_with(supplies[i].name.as_str(), "A") {
            match &supplies[i].online {
                Some(content) => {
                    assert(supplies@[i as int].is_charger());
                    return Some(text::str_eq(text::trim(content.as_str()), "1"));
                },
                None => {},
            }
        }
        i += 1;
    }
    None
}

// ---------------------------------------------------------------------- session

/// A session of the user as the login manager describes it.
#[derive(Debug)]
pub struct Session {
    pub state: String,
    pub class: String,
    pub kind: String,
}

impl Session {
    /// How likely this is the user's graphical session.
    pub open spec fn points(self) -> int {
        (if self.class@ == "user"@ {
            1int
        } else {
            0
        }) + (if self.kind@ == "wayland"@ || self.kind@ == "x11"@ || self.kind@ == "mir"@ {
            2int
        } else {
            0
        }) + (if self.state@ == "active"@ {
            4int
        } else if self.state@ == "online"@ {
            1
        } else {
            0
        })
    }

    /// How likely this is the user's graphical session.
    pub fn score(&self) -> (r: i32)
        ensures
            r == self.points(),
    {
        let mut score: i32 = 0;
        if text::str_eq(self.class.as_str(), "user") {
            score += 1;
        }
        if text::str_eq(self.kind.as_str(), "wayland") || text::str_eq(self.kind.as_str(), "x11")
            || text::str_eq(self.kind.as_str(), "mir") {
            score += 2;
        }
        if text::str_eq(self.state.as_str(), "active") {
            score += 4;
        } else if text::str_eq(self.state.as_str(), "online") {
            score += 1;
        }
        score
    }
}

/// The session that is most likely the user's graphical one; the first of equals.
/// `None` where there is no session.
pub fn best_session(sessions: &Vec<Session>) -> (r: Option<usize>)
    ensures
        match r {
            Some(b) => b < sessions@.len() && forall|k: int|
                0 <= k < sessions@.len() ==> if k < b {
                    (#[trigger] sessions@[k]).points() < sessions@[b as int].points()
                } else {
                    sessions@[k].points() <= sessions@[b as int].points()
                },
            None => sessions@.len() == 0,
        },
{
    if sessions.len() == 0 {
        return None;
    }
    let mut best: usize = 0;
    let mut top: i32 = sessions[0].score();
    let mut i: usize = 1;
    while i < sessions.len()
        invariant
            best < i <= sessions@.len(),
            top == sessions@[best as int].points(),
            forall|k: int|
                0 <= k < i ==> if k < best {
                    (#[trigger] sessions@[k]).points() < top
                } else {
                    sessions@[k].points() <= top
                },
        decreases sessions@.len() - i,
    {
        let score: i32 = sessions[i].score();
        if score > top {
            best = i;
            top = score;
        }
        i += 1;
    }
    Some(best)
}

// ---------------------------------------------------------- battery and services

/// Whether the display device of the power daemon is a battery to go by: one that is
/// present, and of the kind battery or uninterruptible supply. A desktop reports an
/// absent one at zero percent, which must not count as low.
pub fn battery_counts(present: bool, kind: u32) -> (r: bool)
    ensures
        r == (present && (kind == 2 || kind == 3)),
{
    present && (kind == 2 || kind == 3)
}

/// The bus name of the power service.
pub const POWERD_BUS: &'static str = "org.hyprstate.Power1";

/// Whether a change of a bus name's owner means that the power service appeared.
pub fn powerd_appeared(name: &str, owned: bool) -> (r: bool)
    ensures
        r == (name@ == POWERD_BUS@ && owned),
{
    text::str_eq(name, POWERD_BUS) && owned
}

/// What was read for one pass of the reconciler.
#[derive(Debug, Clone, Copy)]
pub struct Readings {
    /// `None`: the login manager did not answer.
    pub lid_closed: Option<bool>,
    pub ext_mon_count: u32,
    pub logind: Option<bool>,
    pub wayland: bool,
    pub locked: Option<bool>,
    pub on_ac: Option<bool>,
    pub edp_disabled: Option<bool>,
    pub dpms_off: Option<bool>,
    pub cursor_pos: Option<(i64, i64)>,
}

/// What one pass of the reconciler reports. Nothing where the lid could not be read;
/// the cursor counts only while something is dark.
pub fn reconcile_snapshot(r: Readings) -> (s: Option<ReconcileSnapshot>)
    ensures
        match r.lid_closed {
            Some(lid_closed) => s == Some(
                ReconcileSnapshot {
                    lid_closed,
                    ext_mon_count: r.ext_mon_count,
                    logind_inhibitor: r.logind == Some(true),
                    wayland_inhibitor: r.wayland,
                    locked: r.locked,
                    on_ac: r.on_ac,
                    edp_disabled: r.edp_disabled,
                    dpms_off: r.dpms_off,
                    cursor_pos: if r.dpms_off == Some(true) {
                        r.cursor_pos
                    } else {
                        None
                    },
                },
            ),
            None => s is None,
        },
{
    let lid_closed = match r.lid_closed {
        Some(b) => b,
        None => {
            return None;
        },
    };
    let logind_inhibitor = match r.logind {
        Some(b) => b,
        None => false,
    };
    let dark = match r.dpms_off {
        Some(b) => b,
        None => false,
    };
    Some(
        ReconcileSnapshot {
            lid_closed,
            ext_mon_count: r.ext_mon_count,
            logind_inhibitor,
            wayland_inhibitor: r.wayland,
            locked: r.locked,
            on_ac: r.on_ac,
            edp_disabled: r.edp_disabled,
            dpms_off: r.dpms_off,
            cursor_pos: if dark {
                r.cursor_pos
            } else {
                None
            },
        },
    )
}

// ------------------------------------------------------------------------- laws

/// Polling twice with the same readings gives no event the second time.
pub proof fn unchanged_inhibitors_are_silent(
    p: InhibitorPoller,
    logind: Option<bool>,
    tail: Option<Seq<char>>,
)
    ensures
        ({
            let once = p.polled(logind, tail);
            once.edges(once.polled(logind, tail)) =~= Seq::<Event>::empty()
        }),
{
}

/// Polling twice with the same words gives no event the second time.
pub proof fn unchanged_modes_are_silent(m: ModeView)
    ensures
        mode_edges(m, m) =~= seq![],
{
}

/// A login manager that does not answer never makes an inhibitor appear or vanish.
pub proof fn silence_is_no_edge(p: InhibitorPoller, tail: Option<Seq<char>>)
    ensures
        p.polled(None, tail).logind == p.logind,
{
}

} // verus!
