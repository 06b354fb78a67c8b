//! Monitor profiles at work: taking in a profile that somebody switched to, choosing
//! one for the connected monitors, and applying it.
use vstd::prelude::*;

use crate::ctx::{ActiveProfile, ActiveView, Context, CtxView};
use crate::effectors::Cmd;
use crate::fsm::State;
use crate::profiles::{EdpPolicy, GpuPref};
use crate::tasks::{
    as_command, ask, be_quiet, do_now, lead_to, no_tasks, push_task, Action, Cause, NoteKind,
    Outcome, OutcomeView, PowerTask, ProfileTask, ProfileTodo, ProfileTodoView, GpuTask, Reply,
    Task, Todo, TodoView,
};
use crate::main_flow::Mode;
use crate::tasks;
use crate::text;
use crate::toml_profile;
use crate::toml_profile::{TomlProfile, TomlView};

verus! {

/// The context with another profile in force.
pub open spec fn with_profile(c: CtxView, profile: ActiveView) -> CtxView {
    CtxView { profile, ..c }
}

/// The profile is in force.
pub open spec fn in_force(p: TomlView) -> ActiveView {
    ActiveView { current: Some(p.inner.name), rev: Some(p), edp_policy: p.inner.edp }
}

/// Somebody switched to a profile by name: its body is looked up in the list; a name
/// that the list lacks leaves the panel to the lid.
pub open spec fn ingested(name: Seq<char>, list: Seq<TomlView>) -> ActiveView {
    match toml_profile::named(list, name) {
        Some(p) => ActiveView { current: Some(name), rev: Some(p), edp_policy: p.inner.edp },
        None => ActiveView { current: Some(name), rev: None, edp_policy: EdpPolicy::Auto },
    }
}

fn ingest_named(ctx: &Context, said: Option<String>) -> (r: Outcome)
    ensures
        r@ == (match text::opt_string(said) {
            Some(name) => if ctx@.profile.current == Some(name) {
                tasks::quiet()
            } else {
                tasks::asking(Action::LoadProfiles, Task::Profile(ProfileTask::IngestLoaded(name)))
            },
            None => tasks::quiet(),
        }),
{
    match said {
        Some(name) => {
            if text::opt_is(text::opt_as_str(&ctx.profile.current), name.as_str()) {
                be_quiet()
            } else {
                ask(Action::LoadProfiles, Task::Profile(ProfileTask::IngestLoaded(name)))
            }
        },
        None => be_quiet(),
    }
}

fn ingest_loaded(profile: &mut ActiveProfile, name: String, reply: &Reply)
    ensures
        final(profile)@ == ingested(name@, reply.profiles_told()),
{
    let found = match reply.profiles() {
        Some(list) => toml_profile::find_profile(list, name.as_str()),
        None => None,
    };
    match found {
        Some(p) => {
            let edp = p.inner.edp;
            let rev = p.clone();
            *profile = ActiveProfile { current: Some(name), rev: Some(rev), edp_policy: edp };
        },
        None => {
            *profile = ActiveProfile { current: Some(name), rev: None, edp_policy: EdpPolicy::Auto };
        },
    }
}

/// What follows the choice of a profile. The breadcrumb comes before the advice: one
/// more login must be enough to get what the advice is about.
pub open spec fn after_choice(crumb: Option<GpuPref>, pref: GpuPref) -> Seq<TodoView> {
    seq![
        Task::Profile(ProfileTask::Breadcrumb(crumb)),
        Task::Gpu(GpuTask::Advise(Cause::MonitorsChanged, pref)),
        Task::Power(PowerTask::Begin),
        Task::Profile(ProfileTask::Rehome),
        Task::Note(NoteKind::Snapshot, Cause::MonitorsChanged),
    ]
}

fn push_after_choice(out: &mut Vec<Todo>, crumb: Option<GpuPref>, pref: GpuPref)
    ensures
        tasks::todos(final(out)@) == tasks::todos(old(out)@) + after_choice(crumb, pref),
{
    let ghost before = tasks::todos(out@);
    push_task(out, Task::Profile(ProfileTask::Breadcrumb(crumb)));
    push_task(out, Task::Gpu(GpuTask::Advise(Cause::MonitorsChanged, pref)));
    push_task(out, Task::Power(PowerTask::Begin));
    push_task(out, Task::Profile(ProfileTask::Rehome));
    push_task(out, Task::Note(NoteKind::Snapshot, Cause::MonitorsChanged));
    assert(tasks::todos(out@) =~= before + after_choice(crumb, pref));
}

fn choose_loaded(profile: &mut ActiveProfile, signature: &Vec<String>, reply: &Reply) -> (r:
    Outcome)
    ensures
        match toml_profile::selected(text::strings(signature@), reply.profiles_told()) {
            Some(p) => final(profile)@ == old(profile)@ && r@ == tasks::leading(
                seq![Task::Profile(ProfileTask::Apply(p))] + after_choice(Some(p.inner.gpu), p.inner.gpu),
            ),
            None => final(profile)@ == (ActiveView { rev: None, ..old(profile)@ }) && r@
                == tasks::leading(after_choice(None, GpuPref::Auto)),
        },
{
    let mut next = no_tasks();
    let picked = match reply.profiles() {
        Some(list) => toml_profile::select_profile(signature, list),
        None => None,
    };
    match picked {
        Some(p) => {
            let gpu = p.inner.gpu;
            push_task(&mut next, Task::Profile(ProfileTask::Apply(p.clone())));
            push_after_choice(&mut next, Some(gpu), gpu);
            assert(tasks::todos(next@) =~= seq![Task::Profile(ProfileTask::Apply(p@))] + after_choice(Some(gpu), gpu));
        },
        None => {
            profile.rev = None;
            push_after_choice(&mut next, None, GpuPref::Auto);
            assert(tasks::todos(next@) =~= after_choice(None, GpuPref::Auto));
        },
    }
    lead_to(next)
}

/// The hooks of a profile as commands.
pub open spec fn hook_tasks(hooks: Seq<Seq<char>>) -> Seq<TodoView> {
    Seq::new(hooks.len(), |i: int| Task::Emit(Action::Run(Cmd::RunHook(hooks[i]))))
}

/// Whether a profile is in force with the same body.
fn is_in_force(ctx: &Context, p: &TomlProfile) -> (r: bool)
    ensures
        r == (ctx@.profile.current == Some(p@.inner.name) && ctx@.profile.rev == Some(p@)),
{
    if !text::opt_is(text::opt_as_str(&ctx.profile.current), p.inner.name.as_str()) {
        return false;
    }
    match &ctx.profile.rev {
        Some(rev) => rev.same(p),
        None => false,
    }
}

fn commit_profile(ctx: &mut Context, p: TomlProfile)
    ensures
        final(ctx)@ == with_profile(old(ctx)@, in_force(p@)),
{
    let name = p.inner.name.clone();
    let edp = p.inner.edp;
    ctx.profile = ActiveProfile { current: Some(name), rev: Some(p), edp_policy: edp };
}

/// The tasks of a profile that was linked anew: a reload, then its hooks.
fn relinked(p: &TomlProfile) -> (r: Vec<Todo>)
    ensures
        tasks::todos(r@) == seq![Task::Emit(Action::Run(Cmd::Reload))] + hook_tasks(p@.inner.hooks),
{
    let mut next = no_tasks();
    push_task(&mut next, Task::Emit(Action::Run(Cmd::Reload)));
    let ghost head = tasks::todos(next@);
    let mut i: usize = 0;
    assert(head + hook_tasks(p@.inner.hooks.take(0)) =~= head);
    while i < p.inner.hooks.len()
        invariant
            i <= p.inner.hooks@.len(),
            tasks::todos(next@) == head + hook_tasks(p@.inner.hooks.take(i as int)),
        decreases p.inner.hooks@.len() - i,
    {
        push_task(&mut next, Task::Emit(Action::Run(Cmd::RunHook(p.inner.hooks[i].clone()))));
        assert(tasks::todos(next@) =~= head + hook_tasks(p@.inner.hooks.take(i + 1)));
        i += 1;
    }
    assert(p@.inner.hooks.take(p@.inner.hooks.len() as int) =~= p@.inner.hooks);
    assert(tasks::todos(next@) =~= seq![Task::Emit(Action::Run(Cmd::Reload))] + hook_tasks(
        p@.inner.hooks,
    ));
    next
}

/// The breadcrumb for the next login: written only where it means something.
pub open spec fn crumb_of(pref: Option<GpuPref>) -> Option<GpuPref> {
    match pref {
        Some(GpuPref::Auto) => None,
        p => p,
    }
}

/// What the breadcrumb file holds afterwards; `None` where there is no file.
pub open spec fn crumb_content(pref: Option<GpuPref>) -> Option<Seq<char>> {
    match crumb_of(pref) {
        Some(p) => Some(p.word() + "\n"@),
        None => None,
    }
}

/// What is written to the breadcrumb file for a preference.
pub fn breadcrumb_text(pref: GpuPref) -> (r: String)
    ensures
        crumb_of(Some(pref)) is Some ==> crumb_content(Some(pref)) == Some(r@),
        r@ == pref.word() + "\n"@,
{
    text::concat2(pref.as_str(), "\n")
}

/// What recording the profile's GPU preference comes to.
pub open spec fn crumb_outcome(m: Mode, pref: Option<GpuPref>) -> OutcomeView {
    if m.shadow {
        tasks::quiet()
    } else {
        tasks::doing(Action::WriteBreadcrumb(crumb_of(pref)))
    }
}

/// Records the profile's GPU preference for the next login.
pub fn write_gpu_breadcrumb(m: Mode, pref: Option<GpuPref>) -> (r: Outcome)
    ensures
        r@ == crumb_outcome(m, pref),
{
    if m.shadow {
        return be_quiet();
    }
    let crumb = match pref {
        Some(GpuPref::Auto) => None,
        p => p,
    };
    do_now(Action::WriteBreadcrumb(crumb))
}

/// What a changed dock does to stranded workspaces: they are moved wherever the panel
/// is meant to be off and an external monitor can take them.
pub open spec fn rehome_outcome(c: CtxView, m: Mode) -> OutcomeView {
    if !c.profile.edp_policy.resolved(c.inputs.state == State::LidOpen) && c.inputs.ext_mon_count
        > 0 {
        tasks::doing(tasks::command(m.shadow, Cmd::RehomeWorkspaces))
    } else {
        tasks::quiet()
    }
}

/// Moves workspaces off a panel that is meant to be off.
pub fn rehome_edp_workspaces(ctx: &Context, m: Mode) -> (r: Outcome)
    ensures
        r@ == rehome_outcome(ctx@, m),
{
    if !ctx.profile.edp_policy.resolve(ctx.inputs.state == State::LidOpen)
        && ctx.inputs.ext_mon_count > 0 {
        do_now(as_command(m.shadow, Cmd::RehomeWorkspaces))
    } else {
        be_quiet()
    }
}

// --------------------------------------------------------------------- tasks

/// What the tasks around monitor profiles come to.
///
/// A name that is in force already is not taken in again. A profile that is in force
/// with the same body, and that the link points at, is not applied again.
pub open spec fn profile_step(c: CtxView, m: Mode, t: ProfileTodoView, reply: Reply) -> (
    CtxView,
    OutcomeView,
) {
    match t {
        ProfileTask::Ingest => (
            c,
            tasks::asking(Action::ReadActiveProfile, Task::Profile(ProfileTask::IngestNamed)),
        ),
        ProfileTask::IngestNamed => (
            c,
            match reply.said() {
                Some(name) => if c.profile.current == Some(name) {
                    tasks::quiet()
                } else {
                    tasks::asking(
                        Action::LoadProfiles,
                        Task::Profile(ProfileTask::IngestLoaded(name)),
                    )
                },
                None => tasks::quiet(),
            },
        ),
        ProfileTask::IngestLoaded(name) => (
            with_profile(c, ingested(name, reply.profiles_told())),
            tasks::quiet(),
        ),
        ProfileTask::Choose => (
            c,
            tasks::asking(Action::ReadSignature, Task::Profile(ProfileTask::ChooseListed)),
        ),
        ProfileTask::ChooseListed => (
            c,
            tasks::asking(
                Action::LoadProfiles,
                Task::Profile(ProfileTask::ChooseLoaded(reply.listed())),
            ),
        ),
        ProfileTask::ChooseLoaded(signature) => match toml_profile::selected(
            signature,
            reply.profiles_told(),
        ) {
            Some(p) => (
                c,
                tasks::leading(
                    seq![Task::Profile(ProfileTask::Apply(p))] + after_choice(Some(p.inner.gpu), p.inner.gpu),
                ),
            ),
            None => (
                with_profile(c, ActiveView { rev: None, ..c.profile }),
                tasks::leading(after_choice(None, GpuPref::Auto)),
            ),
        },
        ProfileTask::Apply(p) => (
            c,
            tasks::asking(
                Action::ProbeProfileLink(p.inner.name),
                Task::Profile(ProfileTask::ApplyProbed(p)),
            ),
        ),
        ProfileTask::ApplyProbed(p) => if reply.yes() && c.profile.current == Some(p.inner.name)
            && c.profile.rev == Some(p) {
            (c, tasks::quiet())
        } else if m.shadow {
            (with_profile(c, in_force(p)), tasks::quiet())
        } else {
            (
                c,
                tasks::asking(
                    Action::RepointProfile(p.inner.name),
                    Task::Profile(ProfileTask::ApplyRepointed(p)),
                ),
            )
        },
        ProfileTask::ApplyRepointed(p) => if reply.yes() {
            (
                with_profile(c, in_force(p)),
                tasks::leading(seq![Task::Emit(Action::Run(Cmd::Reload))] + hook_tasks(p.inner.hooks)),
            )
        } else {
            (c, tasks::quiet())
        },
        ProfileTask::Breadcrumb(pref) => (c, crumb_outcome(m, pref)),
        ProfileTask::Rehome => (c, rehome_outcome(c, m)),
    }
}

/// Takes one task around monitor profiles.
pub fn run_profile(ctx: &mut Context, m: Mode, t: ProfileTodo, reply: &Reply) -> (r: Outcome)
    ensures
        (final(ctx)@, r@) == profile_step(old(ctx)@, m, t@, *reply),
{
    match t {
        ProfileTask::Ingest => ask(
            Action::ReadActiveProfile,
            Task::Profile(ProfileTask::IngestNamed),
        ),
        ProfileTask::IngestNamed => {
            let said = reply.text();
            ingest_named(ctx, said)
        },
        ProfileTask::IngestLoaded(name) => {
            ingest_loaded(&mut ctx.profile, name, reply);
            be_quiet()
        },
        ProfileTask::Choose => ask(
            Action::ReadSignature,
            Task::Profile(ProfileTask::ChooseListed),
        ),
        ProfileTask::ChooseListed => {
            let names = reply.names();
            ask(Action::LoadProfiles, Task::Profile(ProfileTask::ChooseLoaded(names)))
        },
        ProfileTask::ChooseLoaded(signature) => choose_loaded(&mut ctx.profile, &signature, reply),
        ProfileTask::Apply(p) => ask(
            Action::ProbeProfileLink(p.inner.name.clone()),
            Task::Profile(ProfileTask::ApplyProbed(p)),
        ),
        ProfileTask::ApplyProbed(p) => {
            if reply.is_yes() && is_in_force(ctx, &p) {
                be_quiet()
            } else if m.shadow {
                commit_profile(ctx, p);
                be_quiet()
            } else {
                ask(
                    Action::RepointProfile(p.inner.name.clone()),
                    Task::Profile(ProfileTask::ApplyRepointed(p)),
                )
            }
        },
        ProfileTask::ApplyRepointed(p) => {
            if reply.is_yes() {
                let next = relinked(&p);
                commit_profile(ctx, p);
                lead_to(next)
            } else {
                be_quiet()
            }
        },
        ProfileTask::Breadcrumb(pref) => write_gpu_breadcrumb(m, pref),
        ProfileTask::Rehome => rehome_edp_workspaces(ctx, m),
    }
}

// ---------------------------------------------------------------------- laws

/// A profile that is in force and linked is not applied a second time.
pub proof fn applying_twice_is_once(c: CtxView, m: Mode, p: TomlView, reply: Reply)
    requires
        reply.yes(),
    ensures
        profile_step(with_profile(c, in_force(p)), m, ProfileTask::ApplyProbed(p), reply) == (
            with_profile(c, in_force(p)),
            tasks::quiet(),
        ),
{
}

/// The breadcrumb for the next login is written before anything is advised.
pub proof fn the_breadcrumb_comes_first(crumb: Option<GpuPref>, pref: GpuPref)
    ensures
        after_choice(crumb, pref)[0]
            == Task::<Seq<char>, Seq<Seq<char>>, TomlView>::Profile(ProfileTask::Breadcrumb(crumb)),
        forall|i: int|
            0 <= i < after_choice(crumb, pref).len() && (#[trigger] after_choice(crumb, pref)[i]) is Gpu
                ==> i > 0,
{
}

/// The same name with another body is applied again.
pub proof fn changed_body_is_applied_again(
    c: CtxView,
    m: Mode,
    old_body: TomlView,
    new_body: TomlView,
    reply: Reply,
)
    requires
        old_body != new_body,
        !m.shadow,
    ensures
        profile_step(
            with_profile(c, in_force(old_body)),
            m,
            ProfileTask::ApplyProbed(new_body),
            reply,
        ).1
            == tasks::asking(
            Action::RepointProfile(new_body.inner.name),
            Task::Profile(ProfileTask::ApplyRepointed(new_body)),
        ),
{
}

} // verus!
