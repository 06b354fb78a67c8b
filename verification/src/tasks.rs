//! The vocabulary of the dispatcher: what it asks of the world, what it is told, and
//! what it still has to do for the event at hand.
//!
//! The dispatcher never touches the world itself. It hands out one [`Action`] at a
//! time; whoever drives it performs the action and hands the [`Reply`] back.
use vstd::prelude::*;

use crate::effectors::Cmd;
use crate::event::ReconcileSnapshot;
use crate::fsm::{EventKind, State};
use crate::gpu::{CardView, GpuSnapshot};
use crate::power::PowerProfile;
use crate::power_policy::BrightnessStep;
use crate::profiles::GpuPref;
use crate::text;
use crate::toml_profile::{TomlProfile, TomlView};

verus! {

/// Whether a state is entered anew or asserted again.
#[derive(Debug, Clone, Copy, PartialEq, Eq, Structural)]
pub enum Entry {
    Fresh,
    Reassert,
}

/// What an observer is told about.
#[derive(Debug, Clone, Copy, PartialEq, Eq, Structural)]
pub enum NoteKind {
    Transition,
    Ctx,
    Snapshot,
}

/// What led to a note or to a piece of advice.
#[derive(Debug, Clone, Copy, PartialEq, Eq, Structural)]
pub enum Cause {
    Event(EventKind),
    MonitorsChanged,
    ReconcileTick,
    Startup,
}

/// What was fired along with a note.
#[derive(Debug, Clone, Copy, PartialEq, Eq, Structural)]
pub enum Fired {
    Nothing,
    /// The effects of entering a state.
    Entered(State),
    /// A lock was asked for, did not engage, and the grace timer was started again.
    LockAborted,
}

/// A note for observers.
#[derive(Debug, Clone, Copy, PartialEq, Eq, Structural)]
pub struct Note {
    pub kind: NoteKind,
    pub cause: Cause,
    pub from: State,
    pub to: State,
    pub fired: Fired,
}

/// What the dispatcher asks for, with texts of type `S`.
#[derive(Debug)]
pub enum Action<S> {
    // ---- looking; each is answered ----
    /// The name that the active-profile link points at: `Text`.
    ReadActiveProfile,
    /// The profiles: `Profiles`.
    LoadProfiles,
    /// The descriptions of the connected monitors: `Names`.
    ReadSignature,
    /// The number of external monitors: `Count`.
    CountMonitors,
    /// Whether a suspend request is standing: `Flag`.
    ProbeSuspendRequest,
    /// Whether the active-profile link points at the named profile: `Flag`.
    ProbeProfileLink(S),
    /// The level of the named backlight: `Level`.
    ReadBrightness(S),
    /// Whether the grace timer is running: `Flag`.
    ProbeGraceTimer,
    /// Whether a live locker holds the session: `Flag`.
    ProbeLocker,
    /// Whether the lock engages in time: `Flag`.
    WaitForLock,
    /// The device list of the running compositor: `Devices`.
    ReadSessionDevices,
    /// The reason of the last GPU selection: `Text`.
    ReadSelectReason,
    /// The words and the topology that a GPU selection works from: `Gpu`.
    ReadGpuInputs,
    // ---- the daemon's own affairs; not answered ----
    CancelGraceTimer,
    RestartGraceTimer,
    RestartProfileDebounce,
    RestartPowerSettle,
    /// Tell whoever waits for the lock.
    MirrorLock(bool),
    Tell(Note),
    /// A command that is only logged.
    Shadowed(Cmd<S>),
    // ---- changing the world, not answered ----
    Run(Cmd<S>),
    ClearSuspendRequest,
    WriteOverride(PowerProfile),
    RemoveOverride,
    WriteBreadcrumb(Option<GpuPref>),
    RequestLock,
    Suspend,
    // ---- changing the world; whether it worked is answered: `Flag` ----
    ApplyPower(PowerProfile),
    SetDgpuAwake(bool),
    SetBrightness { dev: S, level: u32 },
    /// Point the active-profile link at the named profile.
    RepointProfile(S),
    /// Make the daemon's own suspend request.
    RequestSuspend,
    /// Take the daemon's own suspend request back; somebody else's stays.
    WithdrawSuspend,
}

impl<S> Action<S> {
    /// The action changes something outside the daemon.
    pub open spec fn mutates(self) -> bool {
        match self {
            Action::Run(_) => true,
            Action::ClearSuspendRequest => true,
            Action::WriteOverride(_) => true,
            Action::RemoveOverride => true,
            Action::WriteBreadcrumb(_) => true,
            Action::RequestLock => true,
            Action::Suspend => true,
            Action::ApplyPower(_) => true,
            Action::SetDgpuAwake(_) => true,
            Action::SetBrightness { .. } => true,
            Action::RepointProfile(_) => true,
            Action::RequestSuspend => true,
            Action::WithdrawSuspend => true,
            _ => false,
        }
    }
}

impl View for Action<String> {
    type V = Action<Seq<char>>;

    open spec fn view(&self) -> Action<Seq<char>> {
        match self {
            Action::ReadActiveProfile => Action::ReadActiveProfile,
            Action::LoadProfiles => Action::LoadProfiles,
            Action::ReadSignature => Action::ReadSignature,
            Action::CountMonitors => Action::CountMonitors,
            Action::ProbeSuspendRequest => Action::ProbeSuspendRequest,
            Action::ProbeProfileLink(n) => Action::ProbeProfileLink(n@),
            Action::ReadBrightness(d) => Action::ReadBrightness(d@),
            Action::ProbeGraceTimer => Action::ProbeGraceTimer,
            Action::ProbeLocker => Action::ProbeLocker,
            Action::WaitForLock => Action::WaitForLock,
            Action::ReadSessionDevices => Action::ReadSessionDevices,
            Action::ReadSelectReason => Action::ReadSelectReason,
            Action::ReadGpuInputs => Action::ReadGpuInputs,
            Action::CancelGraceTimer => Action::CancelGraceTimer,
            Action::RestartGraceTimer => Action::RestartGraceTimer,
            Action::RestartProfileDebounce => Action::RestartProfileDebounce,
            Action::RestartPowerSettle => Action::RestartPowerSettle,
            Action::MirrorLock(b) => Action::MirrorLock(*b),
            Action::Tell(n) => Action::Tell(*n),
            Action::Shadowed(c) => Action::Shadowed(c@),
            Action::Run(c) => Action::Run(c@),
            Action::ClearSuspendRequest => Action::ClearSuspendRequest,
            Action::WriteOverride(p) => Action::WriteOverride(*p),
            Action::RemoveOverride => Action::RemoveOverride,
            Action::WriteBreadcrumb(p) => Action::WriteBreadcrumb(*p),
            Action::RequestLock => Action::RequestLock,
            Action::Suspend => Action::Suspend,
            Action::ApplyPower(p) => Action::ApplyPower(*p),
            Action::SetDgpuAwake(b) => Action::SetDgpuAwake(*b),
            Action::SetBrightness { dev, level } => Action::SetBrightness {
                dev: dev@,
                level: *level,
            },
            Action::RepointProfile(n) => Action::RepointProfile(n@),
            Action::RequestSuspend => Action::RequestSuspend,
            Action::WithdrawSuspend => Action::WithdrawSuspend,
        }
    }
}

/// What a GPU selection works from.
#[derive(Debug)]
pub struct GpuInputs {
    pub override_word: Option<String>,
    pub platform_word: Option<String>,
    pub snapshot: GpuSnapshot,
}

/// What the dispatcher is told in answer to an action.
#[derive(Debug)]
pub enum Reply {
    Nothing,
    Flag(bool),
    Count(Option<u32>),
    Level(Option<u32>),
    Text(Option<String>),
    Names(Vec<String>),
    Devices(Option<Vec<String>>),
    Profiles(Vec<TomlProfile>),
    Gpu(GpuInputs),
}

impl Reply {
    /// The answer is yes.
    pub open spec fn yes(self) -> bool {
        self matches Reply::Flag(b) && b
    }

    /// The number in the answer.
    pub open spec fn number(self) -> Option<u32> {
        match self {
            Reply::Count(n) => n,
            _ => None,
        }
    }

    /// The brightness level in the answer.
    pub open spec fn light(self) -> Option<u32> {
        match self {
            Reply::Level(n) => n,
            _ => None,
        }
    }

    /// The text in the answer.
    pub open spec fn said(self) -> Option<Seq<char>> {
        match self {
            Reply::Text(t) => text::opt_string(t),
            _ => None,
        }
    }

    /// The names in the answer.
    pub open spec fn listed(self) -> Seq<Seq<char>> {
        match self {
            Reply::Names(v) => text::strings(v@),
            _ => seq![],
        }
    }

    /// The device list in the answer.
    pub open spec fn devices_told(self) -> Option<Seq<Seq<char>>> {
        match self {
            Reply::Devices(d) => crate::ctx::opt_strings(d),
            _ => None,
        }
    }

    /// The profiles in the answer.
    pub open spec fn profiles_told(self) -> Seq<TomlView> {
        match self {
            Reply::Profiles(v) => crate::toml_profile::views(v@),
            _ => seq![],
        }
    }

    /// The inputs of a GPU selection in the answer: override word, platform word,
    /// cards, a display on some other device, lid closed.
    pub open spec fn gpu_told(self) -> (
        Option<Seq<char>>,
        Option<Seq<char>>,
        Seq<CardView>,
        bool,
        bool,
    ) {
        match self {
            Reply::Gpu(g) => (
                text::opt_string(g.override_word),
                text::opt_string(g.platform_word),
                crate::gpu::card_views(g.snapshot.cards@),
                g.snapshot.non_pci_display,
                g.snapshot.lid_closed,
            ),
            _ => (None, None, seq![], false, false),
        }
    }

    /// Whether the answer is yes.
    pub fn is_yes(&self) -> (r: bool)
        ensures
            r == self.yes(),
    {
        match self {
            Reply::Flag(b) => *b,
            _ => false,
        }
    }

    /// The number in the answer.
    pub fn count(&self) -> (r: Option<u32>)
        ensures
            r == self.number(),
    {
        match self {
            Reply::Count(n) => *n,
            _ => None,
        }
    }

    /// The brightness level in the answer.
    pub fn level(&self) -> (r: Option<u32>)
        ensures
            r == self.light(),
    {
        match self {
            Reply::Level(n) => *n,
            _ => None,
        }
    }

    /// The text in the answer.
    pub fn text(&self) -> (r: Option<String>)
        ensures
            text::opt_string(r) == self.said(),
    {
        match self {
            Reply::Text(t) => text::opt_clone(t),
            _ => None,
        }
    }

    /// The names in the answer.
    pub fn names(&self) -> (r: Vec<String>)
        ensures
            text::strings(r@) == self.listed(),
    {
        match self {
            Reply::Names(v) => v.clone(),
            _ => {
                let v: Vec<String> = Vec::new();
                assert(text::strings(v@) =~= Seq::<Seq<char>>::empty());
                v
            },
        }
    }

    /// The device list in the answer.
    pub fn devices(&self) -> (r: Option<Vec<String>>)
        ensures
            crate::ctx::opt_strings(r) == self.devices_told(),
    {
        match self {
            Reply::Devices(Some(d)) => Some(d.clone()),
            _ => None,
        }
    }

    /// The profiles in the answer.
    pub fn profiles(&self) -> (r: Option<&Vec<TomlProfile>>)
        ensures
            match r {
                Some(v) => crate::toml_profile::views(v@) == self.profiles_told(),
                None => self.profiles_told() == Seq::<TomlView>::empty(),
            },
    {
        match self {
            Reply::Profiles(v) => Some(v),
            _ => None,
        }
    }

    /// The inputs of a GPU selection in the answer.
    pub fn gpu(&self) -> (r: Option<&GpuInputs>)
        ensures
            match r {
                Some(g) => self.gpu_told() == (
                    text::opt_string(g.override_word),
                    text::opt_string(g.platform_word),
                    crate::gpu::card_views(g.snapshot.cards@),
                    g.snapshot.non_pci_display,
                    g.snapshot.lid_closed,
                ),
                None => self.gpu_told() == (
                    None::<Seq<char>>,
                    None::<Seq<char>>,
                    Seq::<CardView>::empty(),
                    false,
                    false,
                ),
            },
    {
        match self {
            Reply::Gpu(g) => Some(g),
            _ => None,
        }
    }
}

/// Tasks of the main machine. A task whose name ends in a participle waits for the
/// reply to the action that was handed out with it; this holds of all the tasks.
#[derive(Debug, Clone, Copy)]
pub enum MainTask {
    Enter(Entry),
    StartGrace { fresh: bool },
    GraceProbed,
    Evaluate(EventKind),
    SuspendTail { from: State, kind: EventKind },
    LockerProbed { from: State, kind: EventKind },
    AwaitLock { from: State, kind: EventKind },
    LockAwaited { from: State, kind: EventKind },
    LockerConfirmed { from: State, kind: EventKind },
    DoSuspend { from: State, kind: EventKind },
    Suspended { from: State, kind: EventKind },
    TimerProbe,
    TimerProbed,
    CountMonitors,
    MonitorsCounted,
}

/// Tasks around monitor profiles, with texts of type `S`, lists of type `L` and
/// profiles of type `P`.
#[derive(Debug)]
pub enum ProfileTask<S, L, P> {
    Ingest,
    IngestNamed,
    IngestLoaded(S),
    Choose,
    ChooseListed,
    ChooseLoaded(L),
    Apply(P),
    ApplyProbed(P),
    ApplyRepointed(P),
    Breadcrumb(Option<GpuPref>),
    Rehome,
}

/// Tasks of a policy check.
#[derive(Debug, Clone, Copy)]
pub enum PowerTask {
    Begin,
    Apply,
    Applied(PowerProfile),
    Edges,
}

/// Tasks around the brightness.
#[derive(Debug, Clone, Copy)]
pub enum LightTask {
    Begin(BrightnessStep),
    Read(BrightnessStep),
    Write(u32),
    Written(u32),
    Rearm,
    RearmRead,
}

/// Tasks of a battery check. `gate`: whether the battery flipped; where nothing came
/// of it either way, the event ends there.
#[derive(Debug, Clone, Copy)]
pub enum BatteryTask {
    Check { gate: Option<bool> },
    Requested { gate: Option<bool> },
    Withdrawn { gate: Option<bool> },
}

/// Tasks around the GPU selection, with lists of type `L`.
#[derive(Debug)]
pub enum GpuTask<L> {
    Gate(Cause),
    GateListed(Cause),
    GateLoaded(Cause, L),
    Advise(Cause, GpuPref),
    AdviseSession(Cause, GpuPref),
    AdviseReason(Cause, GpuPref),
    AdviseInputs(Cause, GpuPref),
    AdviseRead(Cause, GpuPref),
    PinRead(GpuPref),
    Pin(bool),
    PinSet(bool),
}

/// Tasks of a reconciler pass.
#[derive(Debug, Clone, Copy)]
pub enum ReconcileTask {
    Begin(ReconcileSnapshot),
    Probed(ReconcileSnapshot),
    AfterRepair(ReconcileSnapshot),
    Enforce(ReconcileSnapshot),
}

/// What is still to be done for the event at hand.
#[derive(Debug)]
pub enum Task<S, L, P> {
    Emit(Action<S>),
    /// A note whose states are those at the time it is due.
    Note(NoteKind, Cause),
    Main(MainTask),
    Profile(ProfileTask<S, L, P>),
    Power(PowerTask),
    Light(LightTask),
    Battery(BatteryTask),
    Gpu(GpuTask<L>),
    Reconcile(ReconcileTask),
}

/// A profile task of the running dispatcher.
pub type ProfileTodo = ProfileTask<String, Vec<String>, TomlProfile>;

/// What a profile task stands for.
pub type ProfileTodoView = ProfileTask<Seq<char>, Seq<Seq<char>>, TomlView>;

/// A GPU task of the running dispatcher.
pub type GpuTodo = GpuTask<Vec<String>>;

/// What a GPU task stands for.
pub type GpuTodoView = GpuTask<Seq<Seq<char>>>;

/// A task of the running dispatcher.
pub type Todo = Task<String, Vec<String>, TomlProfile>;

/// What a task stands for.
pub type TodoView = Task<Seq<char>, Seq<Seq<char>>, TomlView>;

impl View for ProfileTodo {
    type V = ProfileTodoView;

    open spec fn view(&self) -> ProfileTodoView {
        match self {
            ProfileTask::Ingest => ProfileTask::Ingest,
            ProfileTask::IngestNamed => ProfileTask::IngestNamed,
            ProfileTask::IngestLoaded(s) => ProfileTask::IngestLoaded(s@),
            ProfileTask::Choose => ProfileTask::Choose,
            ProfileTask::ChooseListed => ProfileTask::ChooseListed,
            ProfileTask::ChooseLoaded(l) => ProfileTask::ChooseLoaded(text::strings(l@)),
            ProfileTask::Apply(p) => ProfileTask::Apply(p@),
            ProfileTask::ApplyProbed(p) => ProfileTask::ApplyProbed(p@),
            ProfileTask::ApplyRepointed(p) => ProfileTask::ApplyRepointed(p@),
            ProfileTask::Breadcrumb(p) => ProfileTask::Breadcrumb(*p),
            ProfileTask::Rehome => ProfileTask::Rehome,
        }
    }
}

impl View for GpuTodo {
    type V = GpuTodoView;

    open spec fn view(&self) -> GpuTodoView {
        match self {
            GpuTask::Gate(c) => GpuTask::Gate(*c),
            GpuTask::GateListed(c) => GpuTask::GateListed(*c),
            GpuTask::GateLoaded(c, l) => GpuTask::GateLoaded(*c, text::strings(l@)),
            GpuTask::Advise(c, p) => GpuTask::Advise(*c, *p),
            GpuTask::AdviseSession(c, p) => GpuTask::AdviseSession(*c, *p),
            GpuTask::AdviseReason(c, p) => GpuTask::AdviseReason(*c, *p),
            GpuTask::AdviseInputs(c, p) => GpuTask::AdviseInputs(*c, *p),
            GpuTask::AdviseRead(c, p) => GpuTask::AdviseRead(*c, *p),
            GpuTask::PinRead(p) => GpuTask::PinRead(*p),
            GpuTask::Pin(b) => GpuTask::Pin(*b),
            GpuTask::PinSet(b) => GpuTask::PinSet(*b),
        }
    }
}

impl View for Todo {
    type V = TodoView;

    open spec fn view(&self) -> TodoView {
        match self {
            Task::Emit(a) => Task::Emit(a@),
            Task::Note(k, c) => Task::Note(*k, *c),
            Task::Main(t) => Task::Main(*t),
            Task::Profile(t) => Task::Profile(t@),
            Task::Power(t) => Task::Power(*t),
            Task::Light(t) => Task::Light(*t),
            Task::Battery(t) => Task::Battery(*t),
            Task::Gpu(t) => Task::Gpu(t@),
            Task::Reconcile(t) => Task::Reconcile(*t),
        }
    }
}

/// What each task of a list stands for.
pub open spec fn todos(s: Seq<Todo>) -> Seq<TodoView> {
    Seq::new(s.len(), |i: int| s[i]@)
}

/// What one task comes to: what has to be done next, before anything else, and the
/// action to hand out. `stop` ends the event.
#[derive(Debug)]
pub struct Outcome {
    pub next: Vec<Todo>,
    pub act: Option<Action<String>>,
    pub stop: bool,
}

/// What an outcome stands for.
pub struct OutcomeView {
    pub next: Seq<TodoView>,
    pub act: Option<Action<Seq<char>>>,
    pub stop: bool,
}

impl View for Outcome {
    type V = OutcomeView;

    open spec fn view(&self) -> OutcomeView {
        OutcomeView {
            next: todos(self.next@),
            act: match self.act {
                Some(a) => Some(a@),
                None => None,
            },
            stop: self.stop,
        }
    }
}

/// Nothing comes of the task.
pub open spec fn quiet() -> OutcomeView {
    OutcomeView { next: seq![], act: None, stop: false }
}

/// The task leads to other tasks.
pub open spec fn leading(next: Seq<TodoView>) -> OutcomeView {
    OutcomeView { next, act: None, stop: false }
}

/// The task hands out an action.
pub open spec fn doing(act: Action<Seq<char>>) -> OutcomeView {
    OutcomeView { next: seq![], act: Some(act), stop: false }
}

/// The task hands out an action and waits for the reply in another task.
pub open spec fn asking(act: Action<Seq<char>>, next: TodoView) -> OutcomeView {
    OutcomeView { next: seq![next], act: Some(act), stop: false }
}

/// The event ends.
pub open spec fn ending() -> OutcomeView {
    OutcomeView { next: seq![], act: None, stop: true }
}

/// Nothing comes of the task.
pub fn be_quiet() -> (r: Outcome)
    ensures
        r@ == quiet(),
{
    let r = Outcome { next: Vec::new(), act: None, stop: false };
    assert(r@.next =~= Seq::<TodoView>::empty());
    r
}

/// The task leads to other tasks.
pub fn lead_to(next: Vec<Todo>) -> (r: Outcome)
    ensures
        r@ == leading(todos(next@)),
{
    Outcome { next, act: None, stop: false }
}

/// The task hands out an action.
pub fn do_now(act: Action<String>) -> (r: Outcome)
    ensures
        r@ == doing(act@),
{
    let r = Outcome { next: Vec::new(), act: Some(act), stop: false };
    assert(r@.next =~= Seq::<TodoView>::empty());
    r
}

/// The task hands out an action and waits for the reply in another task.
pub fn ask(act: Action<String>, next: Todo) -> (r: Outcome)
    ensures
        r@ == asking(act@, next@),
{
    let r = Outcome { next: vec![next], act: Some(act), stop: false };
    assert(r@.next =~= seq![next@]);
    r
}

/// The event ends.
pub fn end_event() -> (r: Outcome)
    ensures
        r@ == ending(),
{
    let r = Outcome { next: Vec::new(), act: None, stop: true };
    assert(r@.next =~= Seq::<TodoView>::empty());
    r
}

/// Adds one task.
pub fn push_task(out: &mut Vec<Todo>, t: Todo)
    ensures
        todos(final(out)@) == todos(old(out)@) + seq![t@],
{
    let ghost before = todos(out@);
    out.push(t);
    assert(todos(out@) =~= before + seq![t@]);
}

/// No tasks.
pub fn no_tasks() -> (r: Vec<Todo>)
    ensures
        todos(r@) == Seq::<TodoView>::empty(),
{
    let r: Vec<Todo> = Vec::new();
    assert(todos(r@) =~= Seq::<TodoView>::empty());
    r
}

/// The task leads to one other task.
pub fn lead_to_one(t: Todo) -> (r: Outcome)
    ensures
        r@ == leading(seq![t@]),
{
    let mut next = no_tasks();
    push_task(&mut next, t);
    assert(todos(next@) =~= seq![t@]);
    lead_to(next)
}

/// A command as it is handed out: only logged where the daemon is a shadow.
pub open spec fn command(shadow: bool, cmd: Cmd<Seq<char>>) -> Action<Seq<char>> {
    if shadow {
        Action::Shadowed(cmd)
    } else {
        Action::Run(cmd)
    }
}

/// A command as it is handed out.
pub fn as_command(shadow: bool, cmd: Cmd<String>) -> (r: Action<String>)
    ensures
        r@ == command(shadow, cmd@),
{
    if shadow {
        Action::Shadowed(cmd)
    } else {
        Action::Run(cmd)
    }
}

} // verus!
