//! Telemetry: what an observer is told of the daemon, and when.
//!
//! Telling is best effort. A frame that says the same as the last one that got through
//! is not sent again, and a frame that did not get through does not count as sent, so
//! that a later listener still gets the current state.
use vstd::prelude::*;

use crate::ctx::{Context, CtxView};
use crate::event::label_of;
use crate::fsm::State;
use crate::json;
use crate::number;
use crate::tasks::{Cause, Fired, Note, NoteKind};
use crate::text;

verus! {

/// The state of the screens that frames report.
pub const SCREEN_ACTIVE: &'static str = "SCREEN_ACTIVE";

/// What a frame says of inputs, power and display selection.
#[derive(Debug)]
pub struct FrameCtx {
    pub lid_closed: bool,
    pub ext_mon_count: u32,
    pub inhibitor: bool,
    pub locked: bool,
    pub on_ac: bool,
    pub low_battery: bool,
    pub power_base: String,
    pub desired_profile: String,
    pub applied_profile: String,
    pub active_profile: String,
}

/// What a [`FrameCtx`] holds.
pub struct FrameCtxView {
    pub lid_closed: bool,
    pub ext_mon_count: u32,
    pub inhibitor: bool,
    pub locked: bool,
    pub on_ac: bool,
    pub low_battery: bool,
    pub power_base: Seq<char>,
    pub desired_profile: Seq<char>,
    pub applied_profile: Seq<char>,
    pub active_profile: Seq<char>,
}

impl View for FrameCtx {
    type V = FrameCtxView;

    open spec fn view(&self) -> FrameCtxView {
        FrameCtxView {
            lid_closed: self.lid_closed,
            ext_mon_count: self.ext_mon_count,
            inhibitor: self.inhibitor,
            locked: self.locked,
            on_ac: self.on_ac,
            low_battery: self.low_battery,
            power_base: self.power_base@,
            desired_profile: self.desired_profile@,
            applied_profile: self.applied_profile@,
            active_profile: self.active_profile@,
        }
    }
}

impl Clone for FrameCtx {
    fn clone(&self) -> (r: FrameCtx)
        ensures
            r@ == self@,
    {
        FrameCtx {
            lid_closed: self.lid_closed,
            ext_mon_count: self.ext_mon_count,
            inhibitor: self.inhibitor,
            locked: self.locked,
            on_ac: self.on_ac,
            low_battery: self.low_battery,
            power_base: self.power_base.clone(),
            desired_profile: self.desired_profile.clone(),
            applied_profile: self.applied_profile.clone(),
            active_profile: self.active_profile.clone(),
        }
    }
}

/// A frame.
#[derive(Debug)]
pub struct TelemetryFrame {
    /// Milliseconds since the epoch.
    pub ts: u128,
    pub kind: &'static str,
    pub from: &'static str,
    pub event: &'static str,
    pub to: &'static str,
    pub screen: &'static str,
    pub ctx: FrameCtx,
    pub effectors: Vec<&'static str>,
}

/// What a [`TelemetryFrame`] holds.
pub struct FrameView {
    pub ts: u128,
    pub kind: Seq<char>,
    pub from: Seq<char>,
    pub event: Seq<char>,
    pub to: Seq<char>,
    pub screen: Seq<char>,
    pub ctx: FrameCtxView,
    pub effectors: Seq<Seq<char>>,
}

impl View for TelemetryFrame {
    type V = FrameView;

    open spec fn view(&self) -> FrameView {
        FrameView {
            ts: self.ts,
            kind: self.kind@,
            from: self.from@,
            event: self.event@,
            to: self.to@,
            screen: self.screen@,
            ctx: self.ctx@,
            effectors: text::strs(self.effectors@),
        }
    }
}

// ----------------------------------------------------------------- fingerprints

/// One step of the 64-bit FNV-1a hash, on whole words.
pub open spec fn mixed(h: u64, word: u64) -> u64 {
    (h ^ word).wrapping_mul(0x0000_0100_0000_01b3)
}

/// The hash of some characters, from a value to start with.
pub open spec fn hash_chars(h: u64, s: Seq<char>) -> u64
    decreases s.len(),
{
    if s.len() == 0 {
        h
    } else {
        mixed(hash_chars(h, s.drop_last()), s.last() as u64)
    }
}

/// The hash of a text, closed by a word that no character has.
pub open spec fn hash_text(h: u64, s: Seq<char>) -> u64 {
    mixed(hash_chars(h, s), 0x11_0000)
}

/// The hash of some texts.
pub open spec fn hash_texts(h: u64, s: Seq<Seq<char>>) -> u64
    decreases s.len(),
{
    if s.len() == 0 {
        h
    } else {
        hash_text(hash_texts(h, s.drop_last()), s.last())
    }
}

pub open spec fn hash_flag(h: u64, b: bool) -> u64 {
    mixed(h, if b {
        1
    } else {
        0
    })
}

/// The value that a hash starts with.
pub const HASH_START: u64 = 0xcbf2_9ce4_8422_2325;

impl FrameCtxView {
    /// The fingerprint of what a frame says.
    pub open spec fn print(self) -> u64 {
        let h = hash_flag(HASH_START, self.lid_closed);
        let h = mixed(h, self.ext_mon_count as u64);
        let h = hash_flag(h, self.inhibitor);
        let h = hash_flag(h, self.locked);
        let h = hash_flag(h, self.on_ac);
        let h = hash_flag(h, self.low_battery);
        let h = hash_text(h, self.power_base);
        let h = hash_text(h, self.desired_profile);
        let h = hash_text(h, self.applied_profile);
        hash_text(h, self.active_profile)
    }
}

impl FrameView {
    /// The fingerprint of a whole frame. The time is not part of it.
    pub open spec fn print(self) -> u64 {
        let h = hash_text(HASH_START, self.kind);
        let h = hash_text(h, self.from);
        let h = hash_text(h, self.event);
        let h = hash_text(h, self.to);
        let h = hash_text(h, self.screen);
        self.ctx.print() ^ hash_texts(h, self.effectors)
    }
}

pub(crate) fn mix(h: u64, word: u64) -> (r: u64)
    ensures
        r == mixed(h, word),
{
    (h ^ word).wrapping_mul(0x0000_0100_0000_01b3)
}

fn mix_char(h: u64, c: char) -> (r: u64)
    ensures
        r == mixed(h, c as u64),
{
    mix(h, c as u64)
}

fn mix_flag(h: u64, b: bool) -> (r: u64)
    ensures
        r == hash_flag(h, b),
{
    mix(
        h,
        if b {
            1
        } else {
            0
        },
    )
}

pub(crate) fn mix_text(h: u64, s: &str) -> (r: u64)
    ensures
        r == hash_text(h, s@),
{
    let all = text::chars(s);
    let mut r: u64 = h;
    let mut i: usize = 0;
    while i < all.len()
        invariant
            i <= all.len(),
            all@ == s@,
            r == hash_chars(h, s@.take(i as int)),
        decreases all.len() - i,
    {
        r = mix_char(r, all[i]);
        assert(s@.take(i + 1).drop_last() =~= s@.take(i as int));
        i += 1;
    }
    assert(s@.take(all.len() as int) =~= s@);
    mix(r, 0x11_0000)
}

fn mix_texts(h: u64, all: &Vec<&'static str>) -> (r: u64)
    ensures
        r == hash_texts(h, text::strs(all@)),
{
    let ghost parts = text::strs(all@);
    let mut r: u64 = h;
    let mut i: usize = 0;
    while i < all.len()
        invariant
            i <= all.len(),
            parts == text::strs(all@),
            r == hash_texts(h, parts.take(i as int)),
        decreases all.len() - i,
    {
        r = mix_text(r, all[i]);
        assert(parts.take(i + 1).drop_last() =~= parts.take(i as int));
        i += 1;
    }
    assert(parts.take(all.len() as int) =~= parts);
    r
}

// ------------------------------------------------------------------------ frames

/// What a frame says of a context.
pub open spec fn seen_of(c: CtxView) -> FrameCtxView {
    FrameCtxView {
        lid_closed: c.inputs.lid_closed,
        ext_mon_count: c.inputs.ext_mon_count,
        inhibitor: c.inhibited(),
        locked: c.inputs.locked,
        on_ac: c.power.on_ac_settled,
        low_battery: c.power.low_battery,
        power_base: c.base().word(),
        desired_profile: c.wanted_profile().word(),
        applied_profile: match c.power.applied {
            Some(p) => p.word(),
            None => seq![],
        },
        active_profile: match c.profile.current {
            Some(name) => name,
            None => seq![],
        },
    }
}

impl FrameCtx {
    /// What a frame says of a context.
    pub fn from_context(ctx: &Context) -> (r: Self)
        ensures
            r@ == seen_of(ctx@),
    {
        let base = ctx.base_state();
        let desired = ctx.desired_profile();
        let applied = match ctx.power.applied {
            Some(p) => String::from_str(p.as_str()),
            None => String::new(),
        };
        let active = match &ctx.profile.current {
            Some(name) => name.clone(),
            None => String::new(),
        };
        let r = FrameCtx {
            lid_closed: ctx.inputs.lid_closed,
            ext_mon_count: ctx.inputs.ext_mon_count,
            inhibitor: ctx.inhibitor(),
            locked: ctx.inputs.locked,
            on_ac: ctx.power.on_ac_settled,
            low_battery: ctx.power.low_battery,
            power_base: String::from_str(base.as_str()),
            desired_profile: String::from_str(desired.as_str()),
            applied_profile: applied,
            active_profile: active,
        };
        assert(r@.applied_profile =~= seen_of(ctx@).applied_profile);
        assert(r@.active_profile =~= seen_of(ctx@).active_profile);
        r
    }

    /// The fingerprint of what a frame says.
    pub fn fingerprint(&self) -> (r: u64)
        ensures
            r == self@.print(),
    {
        let h: u64 = mix_flag(HASH_START, self.lid_closed);
        let h: u64 = mix(h, self.ext_mon_count as u64);
        let h: u64 = mix_flag(h, self.inhibitor);
        let h: u64 = mix_flag(h, self.locked);
        let h: u64 = mix_flag(h, self.on_ac);
        let h: u64 = mix_flag(h, self.low_battery);
        let h: u64 = mix_text(h, self.power_base.as_str());
        let h: u64 = mix_text(h, self.desired_profile.as_str());
        let h: u64 = mix_text(h, self.applied_profile.as_str());
        mix_text(h, self.active_profile.as_str())
    }
}

impl TelemetryFrame {
    /// The fingerprint of a whole frame. The time is not part of it.
    pub fn fingerprint(&self) -> (r: u64)
        ensures
            r == self@.print(),
    {
        let h: u64 = mix_text(HASH_START, self.kind);
        let h: u64 = mix_text(h, self.from);
        let h: u64 = mix_text(h, self.event);
        let h: u64 = mix_text(h, self.to);
        let h: u64 = mix_text(h, self.screen);
        self.ctx.fingerprint() ^ mix_texts(h, &self.effectors)
    }
}

/// What entering a state does, by name.
pub open spec fn entering_names(state: State) -> Seq<Seq<char>> {
    match state {
        State::LidOpen => seq!["cancel_grace_timer"@, "set_edp_on"@],
        State::Docked => seq!["cancel_grace_timer"@, "set_edp_off"@],
        State::Deferred => seq!["cancel_grace_timer"@, "set_edp_off"@, "pause_media"@],
        State::Countdown => seq!["set_edp_off"@, "start_grace_timer"@],
        State::Suspending => seq!["cancel_grace_timer"@, "lock_then_suspend"@],
    }
}

/// What entering a state does, by name.
pub fn on_enter_effector_names(state: State) -> (r: Vec<&'static str>)
    ensures
        text::strs(r@) == entering_names(state),
{
    let r: Vec<&'static str> = match state {
        State::LidOpen => vec!["cancel_grace_timer", "set_edp_on"],
        State::Docked => vec!["cancel_grace_timer", "set_edp_off"],
        State::Deferred => vec!["cancel_grace_timer", "set_edp_off", "pause_media"],
        State::Countdown => vec!["set_edp_off", "start_grace_timer"],
        State::Suspending => vec!["cancel_grace_timer", "lock_then_suspend"],
    };
    assert(text::strs(r@) =~= entering_names(state));
    r
}

/// What was done, by name.
pub open spec fn fired_names(f: Fired) -> Seq<Seq<char>> {
    match f {
        Fired::Nothing => seq![],
        Fired::Entered(state) => entering_names(state),
        Fired::LockAborted => seq!["request_lock"@, "start_grace_timer"@],
    }
}

fn names_fired(f: Fired) -> (r: Vec<&'static str>)
    ensures
        text::strs(r@) == fired_names(f),
{
    match f {
        Fired::Nothing => {
            let r: Vec<&'static str> = Vec::new();
            assert(text::strs(r@) =~= seq![]);
            r
        },
        Fired::Entered(state) => on_enter_effector_names(state),
        Fired::LockAborted => {
            let r: Vec<&'static str> = vec!["request_lock", "start_grace_timer"];
            assert(text::strs(r@) =~= seq!["request_lock"@, "start_grace_timer"@]);
            r
        },
    }
}

pub open spec fn kind_word(k: NoteKind) -> Seq<char> {
    match k {
        NoteKind::Transition => "transition"@,
        NoteKind::Ctx => "ctx"@,
        NoteKind::Snapshot => "snapshot"@,
    }
}

pub open spec fn cause_word(c: Cause) -> Seq<char> {
    match c {
        Cause::Event(k) => crate::event::kind_label(k),
        Cause::MonitorsChanged => "MonitorsChanged"@,
        Cause::ReconcileTick => "ReconcileTick"@,
        Cause::Startup => "Startup"@,
    }
}

/// The frame that a note becomes.
pub open spec fn frame_of(c: CtxView, note: Note, ts: u128) -> FrameView {
    FrameView {
        ts,
        kind: kind_word(note.kind),
        from: note.from.label(),
        event: cause_word(note.cause),
        to: note.to.label(),
        screen: SCREEN_ACTIVE@,
        ctx: seen_of(c),
        effectors: fired_names(note.fired),
    }
}

/// The frame that a note becomes.
pub fn frame(ctx: &Context, note: Note, ts: u128) -> (r: TelemetryFrame)
    ensures
        r@ == frame_of(ctx@, note, ts),
{
    TelemetryFrame {
        ts,
        kind: match note.kind {
            NoteKind::Transition => "transition",
            NoteKind::Ctx => "ctx",
            NoteKind::Snapshot => "snapshot",
        },
        from: note.from.as_str(),
        event: match note.cause {
            Cause::Event(k) => label_of(k),
            Cause::MonitorsChanged => "MonitorsChanged",
            Cause::ReconcileTick => "ReconcileTick",
            Cause::Startup => "Startup",
        },
        to: note.to.as_str(),
        screen: SCREEN_ACTIVE,
        ctx: FrameCtx::from_context(ctx),
        effectors: names_fired(note.fired),
    }
}

// --------------------------------------------------------------------------- JSON

pub open spec fn flag_text(b: bool) -> Seq<char> {
    if b {
        "true"@
    } else {
        "false"@
    }
}

fn flag(b: bool) -> (r: &'static str)
    ensures
        r@ == flag_text(b),
{
    if b {
        "true"
    } else {
        "false"
    }
}

impl FrameCtxView {
    /// What a frame says of a context, as a JSON object.
    pub open spec fn object(self) -> Seq<char> {
        "{\"lid_closed\":"@ + flag_text(self.lid_closed) + ",\"ext_mon_count\":"@ + number::decimal(
            self.ext_mon_count as nat,
        ) + ",\"inhibitor\":"@ + flag_text(self.inhibitor) + ",\"locked\":"@ + flag_text(self.locked)
            + ",\"on_ac\":"@ + flag_text(self.on_ac) + ",\"low_battery\":"@ + flag_text(
            self.low_battery,
        ) + ",\"power_base\":"@ + json::quoted(self.power_base) + ",\"desired_profile\":"@
            + json::quoted(self.desired_profile) + ",\"applied_profile\":"@ + json::quoted(
            self.applied_profile,
        ) + ",\"active_profile\":"@ + json::quoted(self.active_profile) + "}"@
    }
}

/// Some texts as a JSON array.
pub open spec fn array_of(s: Seq<Seq<char>>) -> Seq<char> {
    "["@ + text::joined(Seq::new(s.len(), |i: int| json::quoted(s[i])), ","@) + "]"@
}

impl FrameView {
    /// A frame as a JSON object.
    pub open spec fn object(self) -> Seq<char> {
        "{\"ts\":"@ + number::decimal(self.ts as nat) + ",\"kind\":"@ + json::quoted(self.kind)
            + ",\"from\":"@ + json::quoted(self.from) + ",\"event\":"@ + json::quoted(self.event)
            + ",\"to\":"@ + json::quoted(self.to) + ",\"screen\":"@ + json::quoted(self.screen)
            + ",\"ctx\":"@ + self.ctx.object() + ",\"effectors\":"@ + array_of(self.effectors)
            + "}"@
    }
}

fn json_array(s: &Vec<&'static str>) -> (r: String)
    ensures
        r@ == array_of(text::strs(s@)),
{
    let ghost all = text::strs(s@);
    let mut parts: Vec<String> = Vec::new();
    let mut i: usize = 0;
    while i < s.len()
        invariant
            i <= s@.len(),
            all == text::strs(s@),
            parts@.len() == i,
            forall|k: int| 0 <= k < i ==> (#[trigger] parts@[k])@ == json::quoted(all[k]),
        decreases s@.len() - i,
    {
        assert(all[i as int] == s@[i as int]@);
        parts.push(json::quote(s[i]));
        i += 1;
    }
    assert(text::strings(parts@) =~= Seq::new(all.len(), |i: int| json::quoted(all[i])));
    text::concat3("[", text::join(&parts, ",").as_str(), "]")
}

impl FrameCtx {
    /// What a frame says of a context, as a JSON object.
    pub fn to_json(&self) -> (r: String)
        ensures
            r@ == self@.object(),
    {
        let mut out = text::concat3("{\"lid_closed\":", flag(self.lid_closed), ",\"ext_mon_count\":");
        number::push_decimal(&mut out, self.ext_mon_count as u64);
        out.append(",\"inhibitor\":");
        out.append(flag(self.inhibitor));
        out.append(",\"locked\":");
        out.append(flag(self.locked));
        out.append(",\"on_ac\":");
        out.append(flag(self.on_ac));
        out.append(",\"low_battery\":");
        out.append(flag(self.low_battery));
        out.append(",\"power_base\":");
        out.append(json::quote(self.power_base.as_str()).as_str());
        out.append(",\"desired_profile\":");
        out.append(json::quote(self.desired_profile.as_str()).as_str());
        out.append(",\"applied_profile\":");
        out.append(json::quote(self.applied_profile.as_str()).as_str());
        out.append(",\"active_profile\":");
        out.append(json::quote(self.active_profile.as_str()).as_str());
        out.append("}");
        out
    }
}

impl TelemetryFrame {
    /// A frame as a JSON object.
    pub fn to_json(&self) -> (r: String)
        ensures
            r@ == self@.object(),
    {
        let mut out = String::from_str("{\"ts\":");
        number::push_long_decimal(&mut out, self.ts);
        out.append(",\"kind\":");
        out.append(json::quote(self.kind).as_str());
        out.append(",\"from\":");
        out.append(json::quote(self.from).as_str());
        out.append(",\"event\":");
        out.append(json::quote(self.event).as_str());
        out.append(",\"to\":");
        out.append(json::quote(self.to).as_str());
        out.append(",\"screen\":");
        out.append(json::quote(self.screen).as_str());
        out.append(",\"ctx\":");
        out.append(self.ctx.to_json().as_str());
        out.append(",\"effectors\":");
        out.append(json_array(&self.effectors).as_str());
        out.append("}");
        out
    }

    /// A frame as it is sent: one line.
    pub fn line(&self) -> (r: String)
        ensures
            r@ == self@.object() + "\n"@,
    {
        let mut out = self.to_json();
        out.append("\n");
        out
    }
}

// ----------------------------------------------------------------------- emitter

/// What the emitter wants done next.
#[derive(Debug, Clone, Copy, PartialEq, Eq, Structural)]
pub enum Delivery {
    /// Connect to the listener.
    Connect,
    /// Write the frame to the connection.
    Write,
    /// Nothing more. Tells whether the frame was written.
    Done(bool),
}

/// The emitter: the connection and what was last written.
#[derive(Debug, Clone, Copy, PartialEq, Eq, Structural)]
pub struct TelemetryEmitter {
    /// There is a connection.
    pub connected: bool,
    /// The fingerprint of the frame that last got through.
    pub last_fp: Option<u64>,
    /// The connection was made anew for the frame at hand after a failed write.
    pub retried: bool,
}

impl TelemetryEmitter {
    /// An emitter that has sent nothing.
    pub fn new() -> (r: Self)
        ensures
            r == (TelemetryEmitter { connected: false, last_fp: None, retried: false }),
    {
        TelemetryEmitter { connected: false, last_fp: None, retried: false }
    }

    /// The emitter when a frame is offered to it.
    pub open spec fn offered(self, fp: u64) -> (TelemetryEmitter, Delivery) {
        let e = TelemetryEmitter { retried: false, ..self };
        if self.last_fp == Some(fp) {
            (e, Delivery::Done(false))
        } else if self.connected {
            (e, Delivery::Write)
        } else {
            (e, Delivery::Connect)
        }
    }

    /// The emitter when it was tried to connect.
    pub open spec fn after_connect(self, ok: bool) -> (TelemetryEmitter, Delivery) {
        (
            TelemetryEmitter { connected: ok, ..self },
            if ok {
                Delivery::Write
            } else {
                Delivery::Done(false)
            },
        )
    }

    /// The emitter when it was tried to write. A failed write drops the connection and
    /// forgets the last frame; the frame at hand gets one more try.
    pub open spec fn after_write(self, fp: u64, ok: bool) -> (
        TelemetryEmitter,
        Delivery,
    ) {
        if ok {
            (TelemetryEmitter { last_fp: Some(fp), ..self }, Delivery::Done(true))
        } else {
            (
                TelemetryEmitter { connected: false, last_fp: None, retried: true },
                if self.retried {
                    Delivery::Done(false)
                } else {
                    Delivery::Connect
                },
            )
        }
    }

    /// Offers a frame by its fingerprint. One that says the same as the last that got
    /// through is not sent.
    pub fn emit_if_changed(&mut self, fp: u64) -> (r: Delivery)
        ensures
            (*final(self), r) == old(self).offered(fp),
    {
        self.retried = false;
        let same = match self.last_fp {
            Some(last) => last == fp,
            None => false,
        };
        if same {
            Delivery::Done(false)
        } else if self.connected {
            Delivery::Write
        } else {
            Delivery::Connect
        }
    }

    /// Takes in how connecting went.
    pub fn connect_done(&mut self, ok: bool) -> (r: Delivery)
        ensures
            (*final(self), r) == old(self).after_connect(ok),
    {
        self.connected = ok;
        if ok {
            Delivery::Write
        } else {
            Delivery::Done(false)
        }
    }

    /// Takes in how writing went.
    pub fn write_done(&mut self, fp: u64, ok: bool) -> (r: Delivery)
        ensures
            (*final(self), r) == old(self).after_write(fp, ok),
    {
        if ok {
            self.last_fp = Some(fp);
            return Delivery::Done(true);
        }
        self.connected = false;
        self.last_fp = None;
        if self.retried {
            Delivery::Done(false)
        } else {
            self.retried = true;
            Delivery::Connect
        }
    }
}

// -------------------------------------------------------------------------- laws

/// Frames that differ in nothing but the time have one fingerprint, so the second of
/// them is not sent once the first got through.
pub proof fn repeated_frames_are_not_sent(
    e: TelemetryEmitter,
    f: FrameView,
    ts: u128,
)
    ensures
        (FrameView { ts, ..f }).print() == f.print(),
        e.after_write(f.print(), true).0.offered((FrameView { ts, ..f }).print()).1
            == Delivery::Done(false),
{
}

/// A frame counts as sent only after a write that succeeded: offering it and failing to
/// connect or to write leaves it to be sent again.
pub proof fn failed_frames_are_offered_again(e: TelemetryEmitter, fp: u64)
    requires
        e.last_fp != Some(fp),
    ensures
        e.offered(fp).0.last_fp != Some(fp),
        e.offered(fp).1 != Delivery::Done(false),
        e.after_connect(false).0.last_fp != Some(fp),
        e.after_write(fp, false).0.last_fp != Some(fp),
{
}

/// A frame is written at most twice: after the second failed write nothing more is
/// asked for.
pub proof fn two_attempts_at_most(e: TelemetryEmitter, fp: u64)
    ensures
        ({
            let (first, again) = e.offered(fp).0.after_write(fp, false);
            let second = first.after_connect(true).0.after_write(fp, false);
            &&& again == Delivery::Connect
            &&& second.1 == Delivery::Done(false)
        }),
{
}

} // verus!
