//! What becomes of the monitor profiles: which one comes into force, and what follows.
use vstd::prelude::*;

use crate::ctx::CtxView;
use crate::effectors::Cmd;
use crate::fsm::State;
use crate::main_flow::Mode;
use crate::profile_flow;
use crate::profiles;
use crate::profiles::{EdpPolicy, GpuPref, ProfileView};
use crate::tasks::{
    Action, Cause, GpuTask, GpuInputs, NoteKind, PowerTask, ProfileTask, Reply, TodoView,
};
use crate::text;
use crate::toml_profile;
use crate::toml_profile::{TomlProfile, TomlView};

verus! {

/// A reply says what it was made of, and nothing of any other kind.
pub proof fn replies_say_what_they_hold(
    flag: bool,
    n: Option<u32>,
    said: Option<String>,
    names: Vec<String>,
    devices: Option<Vec<String>>,
    list: Vec<TomlProfile>,
    inputs: GpuInputs,
)
    ensures
        Reply::Flag(flag).yes() == flag,
        Reply::Count(n).number() == n,
        Reply::Level(n).light() == n,
        !Reply::Count(n).yes() && !Reply::Level(n).yes(),
        Reply::Count(n).light() is None && Reply::Level(n).number() is None,
        match (Reply::Text(said).said(), said) {
            (Some(t), Some(s)) => t == s@,
            (None, None) => true,
            _ => false,
        },
        Reply::Flag(flag).said() is None,
        Reply::Names(names).listed().len() == names@.len(),
        forall|i: int|
            0 <= i < names@.len() ==> #[trigger] Reply::Names(names).listed()[i] == names@[i]@,
        match (Reply::Devices(devices).devices_told(), devices) {
            (Some(t), Some(v)) => t.len() == v@.len() && forall|i: int|
                0 <= i < v@.len() ==> #[trigger] t[i] == v@[i]@,
            (None, None) => true,
            _ => false,
        },
        Reply::Profiles(list).profiles_told().len() == list@.len(),
        forall|i: int|
            0 <= i < list@.len() ==> #[trigger] Reply::Profiles(list).profiles_told()[i]
                == list@[i]@,
        Reply::Gpu(inputs).gpu_told().3 == inputs.snapshot.non_pci_display,
        Reply::Gpu(inputs).gpu_told().4 == inputs.snapshot.lid_closed,
        Reply::Gpu(inputs).gpu_told().2.len() == inputs.snapshot.cards@.len(),
        match (Reply::Gpu(inputs).gpu_told().0, inputs.override_word) {
            (Some(t), Some(s)) => t == s@,
            (None, None) => true,
            _ => false,
        },
        match (Reply::Gpu(inputs).gpu_told().1, inputs.platform_word) {
            (Some(t), Some(s)) => t == s@,
            (None, None) => true,
            _ => false,
        },
{
}

// ------------------------------------------------------------------------ taking in

/// The name that the link points at is read; one that is in force already, or none, comes
/// to nothing; another is looked up among the profiles.
pub proof fn the_link_is_followed(c: CtxView, m: Mode, reply: Reply)
    ensures
        ({
            let (e, o) = profile_flow::profile_step(c, m, ProfileTask::Ingest, reply);
            &&& e == c && !o.stop
            &&& o.act == Some(Action::<Seq<char>>::ReadActiveProfile)
            &&& o.next == seq![TodoView::Profile(ProfileTask::IngestNamed)]
        }),
        ({
            let (e, o) = profile_flow::profile_step(c, m, ProfileTask::IngestNamed, reply);
            let news = reply.said() is Some && reply.said() != c.profile.current;
            &&& e == c && !o.stop
            &&& !news ==> o.act is None && o.next.len() == 0
            &&& news ==> o.act == Some(Action::<Seq<char>>::LoadProfiles) && o.next == seq![
                TodoView::Profile(ProfileTask::IngestLoaded(reply.said()->0)),
            ]
        }),
{
    assert(profile_flow::profile_step(c, m, ProfileTask::Ingest, reply).1.next =~= seq![
        TodoView::Profile(ProfileTask::IngestNamed),
    ]);
    if reply.said() is Some && reply.said() != c.profile.current {
        assert(profile_flow::profile_step(c, m, ProfileTask::IngestNamed, reply).1.next =~= seq![
            TodoView::Profile(ProfileTask::IngestLoaded(reply.said()->0)),
        ]);
    }
}

proof fn lemma_first_of_name(list: Seq<TomlView>, name: Seq<char>)
    ensures
        match toml_profile::named(list, name) {
            Some(p) => exists|i: int|
                0 <= i < list.len() && p == #[trigger] list[i] && p.inner.name == name && (forall|j:
                    int| 0 <= j < i ==> (#[trigger] list[j]).inner.name != name),
            None => forall|i: int| 0 <= i < list.len() ==> (#[trigger] list[i]).inner.name != name,
        },
    decreases list.len(),
{
    if list.len() > 0 {
        let rest = list.skip(1);
        lemma_first_of_name(rest, name);
        if list[0].inner.name == name {
        } else {
            match toml_profile::named(rest, name) {
                Some(p) => {
                    let k = choose|k: int|
                        0 <= k < rest.len() && p == #[trigger] rest[k] && p.inner.name == name && (
                        forall|j: int| 0 <= j < k ==> (#[trigger] rest[j]).inner.name != name);
                    assert(list[k + 1] == p);
                    assert forall|j: int| 0 <= j < k + 1 implies (#[trigger] list[j]).inner.name
                        != name by {
                        if j > 0 {
                            assert(rest[j - 1] == list[j]);
                        }
                    }
                },
                None => {
                    assert forall|i: int| 0 <= i < list.len() implies (
                    #[trigger] list[i]).inner.name != name by {
                        if i > 0 {
                            assert(rest[i - 1] == list[i]);
                        }
                    }
                },
            }
        }
    }
}

/// A profile that somebody switched to comes into force with its body and what it wants of
/// the panel: the first of its name. A name that no profile has leaves the panel to the
/// lid. Nothing else of the context is touched, and nothing is run.
pub proof fn switches_are_taken_in(c: CtxView, m: Mode, name: Seq<char>, reply: Reply)
    ensures
        ({
            let (e, o) = profile_flow::profile_step(c, m, ProfileTask::IngestLoaded(name), reply);
            let list = reply.profiles_told();
            &&& o.act is None && o.next.len() == 0 && !o.stop
            &&& e.profile.current == Some(name)
            &&& (forall|i: int| 0 <= i < list.len() ==> (#[trigger] list[i]).inner.name != name)
                ==> e.profile.rev is None && e.profile.edp_policy == EdpPolicy::Auto
            &&& forall|i: int|
                0 <= i < list.len() && (#[trigger] list[i]).inner.name == name && (forall|j: int|
                    0 <= j < i ==> (#[trigger] list[j]).inner.name != name) ==> e.profile.rev
                    == Some(list[i]) && e.profile.edp_policy == list[i].inner.edp
            &&& e.inputs == c.inputs && e.power == c.power && e.gpu == c.gpu
            &&& e.self_writes == c.self_writes && e.backlight == c.backlight
        }),
{
    let list = reply.profiles_told();
    lemma_first_of_name(list, name);
    let e = profile_flow::profile_step(c, m, ProfileTask::IngestLoaded(name), reply).0;
    assert forall|i: int|
        0 <= i < list.len() && (#[trigger] list[i]).inner.name == name && (forall|j: int|
            0 <= j < i ==> (#[trigger] list[j]).inner.name != name) implies e.profile.rev == Some(
        list[i],
    ) && e.profile.edp_policy == list[i].inner.edp by {
        let p = toml_profile::named(list, name)->0;
        let k = choose|k: int|
            0 <= k < list.len() && p == #[trigger] list[k] && p.inner.name == name && (forall|j: int|
                0 <= j < k ==> (#[trigger] list[j]).inner.name != name);
        if k < i {
            assert(list[k].inner.name != name);
        }
        if i < k {
            assert(list[i].inner.name != name);
        }
    }
}

// ------------------------------------------------------------------------- choosing

/// A choice goes by the monitors that are connected and the profiles there are.
pub proof fn choices_go_by_the_monitors(c: CtxView, m: Mode, reply: Reply)
    ensures
        ({
            let (e, o) = profile_flow::profile_step(c, m, ProfileTask::Choose, reply);
            &&& e == c && !o.stop
            &&& o.act == Some(Action::<Seq<char>>::ReadSignature)
            &&& o.next == seq![TodoView::Profile(ProfileTask::ChooseListed)]
        }),
        ({
            let (e, o) = profile_flow::profile_step(c, m, ProfileTask::ChooseListed, reply);
            &&& e == c && !o.stop
            &&& o.act == Some(Action::<Seq<char>>::LoadProfiles)
            &&& o.next == seq![TodoView::Profile(ProfileTask::ChooseLoaded(reply.listed()))]
        }),
{
    assert(profile_flow::profile_step(c, m, ProfileTask::Choose, reply).1.next =~= seq![
        TodoView::Profile(ProfileTask::ChooseListed),
    ]);
    assert(profile_flow::profile_step(c, m, ProfileTask::ChooseListed, reply).1.next =~= seq![
        TodoView::Profile(ProfileTask::ChooseLoaded(reply.listed())),
    ]);
}

/// What follows a choice, with the preference that came with it.
pub open spec fn in_the_wake(crumb: Option<GpuPref>, pref: GpuPref) -> Seq<TodoView> {
    seq![
        TodoView::Profile(ProfileTask::Breadcrumb(crumb)),
        TodoView::Gpu(GpuTask::Advise(Cause::MonitorsChanged, pref)),
        TodoView::Power(PowerTask::Begin),
        TodoView::Profile(ProfileTask::Rehome),
        TodoView::Note(NoteKind::Snapshot, Cause::MonitorsChanged),
    ]
}

/// Where a profile fits, one that fits is applied, and its preference is written down and
/// advised on. Where none does, what was in force is no longer held to be so: the
/// breadcrumb goes, and advice, policy and workspaces are seen to all the same.
pub proof fn a_profile_that_fits_is_applied(
    c: CtxView,
    m: Mode,
    signature: Seq<Seq<char>>,
    reply: Reply,
)
    requires
        forall|i: int, j: int|
            0 <= i < j < reply.profiles_told().len() ==> (#[trigger] reply.profiles_told()[i]).inner.name
                != (#[trigger] reply.profiles_told()[j]).inner.name,
    ensures
        ({
            let (e, o) = profile_flow::profile_step(
                c,
                m,
                ProfileTask::ChooseLoaded(signature),
                reply,
            );
            let list = reply.profiles_told();
            let fitting = exists|i: int|
                0 <= i < list.len() && profiles::eligible(#[trigger] list[i].inner, signature);
            &&& o.act is None && !o.stop
            &&& fitting ==> e == c && exists|i: int|
                0 <= i < list.len() && profiles::eligible(#[trigger] list[i].inner, signature)
                    && o.next == seq![TodoView::Profile(ProfileTask::Apply(list[i]))] + in_the_wake(
                    Some(list[i].inner.gpu),
                    list[i].inner.gpu,
                )
            &&& !fitting ==> {
                &&& o.next == in_the_wake(None, GpuPref::Auto)
                &&& e.profile.rev is None
                &&& e.profile.current == c.profile.current
                &&& e.profile.edp_policy == c.profile.edp_policy
                &&& e.inputs == c.inputs && e.power == c.power && e.gpu == c.gpu
            }
        }),
{
    let list = reply.profiles_told();
    let all = toml_profile::inners(list);
    toml_profile::selection_keeps_its_layout(signature, list);
    let o = profile_flow::profile_step(c, m, ProfileTask::ChooseLoaded(signature), reply).1;
    match toml_profile::selected(signature, list) {
        Some(p) => {
            let k = list.index_of(p);
            assert(list[k] == p);
            assert(profiles::eligible(list[k].inner, signature));
            assert(o.next =~= seq![TodoView::Profile(ProfileTask::Apply(list[k]))] + in_the_wake(
                Some(list[k].inner.gpu),
                list[k].inner.gpu,
            ));
        },
        None => {
            assert(o.next =~= in_the_wake(None, GpuPref::Auto));
        },
    }
}

// ------------------------------------------------------------------------- applying

/// A profile that is about to be applied is held against the link first. It is left alone
/// only where the link points at it and it is in force with this very body.
pub proof fn profiles_are_linked(c: CtxView, m: Mode, p: TomlView, reply: Reply)
    ensures
        ({
            let (e, o) = profile_flow::profile_step(c, m, ProfileTask::Apply(p), reply);
            &&& e == c && !o.stop
            &&& o.act == Some(Action::ProbeProfileLink(p.inner.name))
            &&& o.next == seq![TodoView::Profile(ProfileTask::ApplyProbed(p))]
        }),
        ({
            let (e, o) = profile_flow::profile_step(c, m, ProfileTask::ApplyProbed(p), reply);
            let settled = reply.yes() && c.profile.current == Some(p.inner.name) && c.profile.rev
                == Some(p);
            &&& !o.stop
            &&& settled ==> e == c && o.act is None && o.next.len() == 0
            &&& !settled && !m.shadow ==> e == c && o.act == Some(
                Action::RepointProfile(p.inner.name),
            ) && o.next == seq![TodoView::Profile(ProfileTask::ApplyRepointed(p))]
            &&& !settled && m.shadow ==> o.act is None && o.next.len() == 0 && e.profile.current
                == Some(p.inner.name) && e.profile.rev == Some(p) && e.profile.edp_policy
                == p.inner.edp
        }),
{
    assert(profile_flow::profile_step(c, m, ProfileTask::Apply(p), reply).1.next =~= seq![
        TodoView::Profile(ProfileTask::ApplyProbed(p)),
    ]);
    let (e, o) = profile_flow::profile_step(c, m, ProfileTask::ApplyProbed(p), reply);
    if o.act is Some {
        assert(o.next =~= seq![TodoView::Profile(ProfileTask::ApplyRepointed(p))]);
    }
}

/// A profile that was linked is in force; the compositor reloads, and then each hook is
/// run, in order. One that could not be linked changes nothing.
pub proof fn linked_profiles_come_into_force(c: CtxView, m: Mode, p: TomlView, reply: Reply)
    ensures
        ({
            let (e, o) = profile_flow::profile_step(c, m, ProfileTask::ApplyRepointed(p), reply);
            &&& o.act is None && !o.stop
            &&& !reply.yes() ==> e == c && o.next.len() == 0
            &&& reply.yes() ==> {
                &&& e.profile.current == Some(p.inner.name)
                &&& e.profile.rev == Some(p)
                &&& e.profile.edp_policy == p.inner.edp
                &&& o.next.len() == p.inner.hooks.len() + 1
                &&& o.next[0] == TodoView::Emit(Action::Run(Cmd::Reload))
                &&& forall|i: int|
                    0 <= i < p.inner.hooks.len() ==> o.next[i + 1] == TodoView::Emit(
                        Action::Run(Cmd::RunHook(#[trigger] p.inner.hooks[i])),
                    )
                &&& e.inputs == c.inputs && e.power == c.power && e.gpu == c.gpu
            }
        }),
{
}

// ------------------------------------------------------------------------ aftermath

/// The preference of a profile is left for the next login: its word, or no file for a
/// profile that has none. A shadow leaves nothing.
pub proof fn preferences_are_left_for_the_next_login(
    c: CtxView,
    m: Mode,
    pref: Option<GpuPref>,
    reply: Reply,
)
    ensures
        ({
            let (e, o) = profile_flow::profile_step(c, m, ProfileTask::Breadcrumb(pref), reply);
            &&& e == c && o.next.len() == 0 && !o.stop
            &&& m.shadow ==> o.act is None
            &&& !m.shadow && (pref is None || pref == Some(GpuPref::Auto)) ==> o.act == Some(
                Action::<Seq<char>>::WriteBreadcrumb(None),
            )
            &&& !m.shadow && (pref == Some(GpuPref::Igpu) || pref == Some(GpuPref::Dgpu)) ==> o.act
                == Some(Action::<Seq<char>>::WriteBreadcrumb(pref))
        }),
        profile_flow::crumb_content(None) is None,
        profile_flow::crumb_content(Some(GpuPref::Auto)) is None,
        profile_flow::crumb_content(Some(GpuPref::Igpu)) == Some("igpu"@ + "\n"@),
        profile_flow::crumb_content(Some(GpuPref::Dgpu)) == Some("dgpu"@ + "\n"@),
{
}

/// Workspaces are moved off the panel where it is meant to be off and an external monitor
/// can take them: a panel that the profile turns off, or one under a lid that is not open
/// where the profile leaves it to the lid.
pub proof fn stranded_workspaces_are_moved(c: CtxView, m: Mode, reply: Reply)
    ensures
        ({
            let (e, o) = profile_flow::profile_step(c, m, ProfileTask::Rehome, reply);
            let off = c.profile.edp_policy == EdpPolicy::Disable || (c.profile.edp_policy
                == EdpPolicy::Auto && c.inputs.state != State::LidOpen);
            &&& e == c && o.next.len() == 0 && !o.stop
            &&& off && c.inputs.ext_mon_count > 0 && !m.shadow ==> o.act == Some(
                Action::Run(Cmd::<Seq<char>>::RehomeWorkspaces),
            )
            &&& off && c.inputs.ext_mon_count > 0 && m.shadow ==> o.act == Some(
                Action::Shadowed(Cmd::<Seq<char>>::RehomeWorkspaces),
            )
            &&& !(off && c.inputs.ext_mon_count > 0) ==> o.act is None
        }),
{
}

// ------------------------------------------------------------------------- matching

/// Some monitor's description starts with `d`.
pub open spec fn is_connected(d: Seq<char>, signature: Seq<Seq<char>>) -> bool {
    exists|j: int|
        0 <= j < signature.len() && (#[trigger] signature[j]).len() >= d.len() && signature[j].take(
            d.len() as int,
        ) == d
}

/// A directive finds a monitor whose description starts with what it says. `desc:` before
/// it is not part of what is looked for.
pub proof fn descriptions_are_matched_by_their_start(d: Seq<char>, signature: Seq<Seq<char>>)
    requires
        text::trimmed(d) == d,
    ensures
        profiles::matched("desc:"@ + d, signature) == is_connected(d, signature),
        !text::has_prefix(d, "desc:"@) ==> profiles::matched(d, signature) == is_connected(
            d,
            signature,
        ),
{
    let pasted = "desc:"@ + d;
    assert(pasted.take("desc:"@.len() as int) =~= "desc:"@);
    assert(pasted.skip("desc:"@.len() as int) =~= d);
    assert(profiles::needle_of(pasted) == d);
    if exists|j: int| 0 <= j < signature.len() && text::has_prefix(#[trigger] signature[j], d) {
        let j = choose|j: int|
            0 <= j < signature.len() && text::has_prefix(#[trigger] signature[j], d);
        assert(signature[j].take(d.len() as int) == d);
    }
    if is_connected(d, signature) {
        let j = choose|j: int|
            0 <= j < signature.len() && (#[trigger] signature[j]).len() >= d.len()
                && signature[j].take(d.len() as int) == d;
        assert(text::has_prefix(signature[j], d));
    }
}

/// A profile fits where every one of its directives finds a monitor: one that finds none is
/// enough for it not to fit.
pub proof fn every_directive_has_to_match(p: ProfileView, signature: Seq<Seq<char>>, i: int)
    requires
        0 <= i < p.matches.len(),
    ensures
        !profiles::matched(p.matches[i], signature) ==> !profiles::eligible(p, signature),
        p.matches.len() == 1 && profiles::matched(p.matches[i], signature) ==> profiles::eligible(
            p,
            signature,
        ),
{
}

/// The profile that is chosen fits, and no other that fits has a higher priority; of those
/// with its priority none has more directives; of those with as many, none has a later
/// name.
pub proof fn the_highest_priority_is_chosen(
    signature: Seq<Seq<char>>,
    list: Seq<ProfileView>,
    k: int,
)
    requires
        0 <= k < list.len(),
        profiles::eligible(list[k], signature),
    ensures
        ({
            let best = profiles::chosen(signature, list);
            &&& best is Some
            &&& list.contains(best->0)
            &&& profiles::eligible(best->0, signature)
            &&& best->0.priority >= list[k].priority
            &&& best->0.priority == list[k].priority ==> best->0.matches.len()
                >= list[k].matches.len()
            &&& best->0.priority == list[k].priority && best->0.matches.len()
                == list[k].matches.len() ==> !text::text_less(best->0.name, list[k].name)
        }),
{
    profiles::selection_exists(signature, list, k);
    let i = choose|i: int| profiles::is_selected(signature, list, i);
    assert(profiles::chosen(signature, list) == Some(list[i]));
}

/// The panel does what the profile says of it, and follows the lid where the profile says
/// nothing.
pub proof fn the_panel_is_up_to_the_profile(open: bool)
    ensures
        EdpPolicy::Enable.resolved(open),
        !EdpPolicy::Disable.resolved(open),
        EdpPolicy::Auto.resolved(open) == open,
{
}

} // verus!
