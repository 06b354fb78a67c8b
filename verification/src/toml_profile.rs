//! Profiles as their sources give them: what selection reads, and the layout with it.
use vstd::prelude::*;

use crate::profiles;
use crate::profiles::{choose_profile, Profile, ProfileView};
use crate::text;

verus! {

/// A profile with everything that its source says.
#[derive(Debug)]
pub struct TomlProfile {
    pub inner: Profile,
    /// The rest of the source, its monitors and workspaces, as one text. Nothing reads
    /// it: it is there to be compared.
    pub layout: String,
}

/// What a [`TomlProfile`] holds.
#[verifier::ext_equal]
pub struct TomlView {
    pub inner: ProfileView,
    pub layout: Seq<char>,
}

impl View for TomlProfile {
    type V = TomlView;

    open spec fn view(&self) -> TomlView {
        TomlView { inner: self.inner@, layout: self.layout@ }
    }
}

/// What each profile of a list holds.
pub open spec fn views(s: Seq<TomlProfile>) -> Seq<TomlView> {
    Seq::new(s.len(), |i: int| s[i]@)
}

/// What selection reads of each profile.
pub open spec fn inners(s: Seq<TomlView>) -> Seq<ProfileView> {
    Seq::new(s.len(), |i: int| s[i].inner)
}

impl Clone for TomlProfile {
    fn clone(&self) -> (r: TomlProfile)
        ensures
            r@ == self@,
    {
        TomlProfile { inner: self.inner.clone(), layout: self.layout.clone() }
    }
}

impl TomlProfile {
    /// Whether two sources say the same.
    pub fn same(&self, other: &TomlProfile) -> (r: bool)
        ensures
            r == (self@ == other@),
    {
        self.inner.same(&other.inner) && self.layout == other.layout
    }
}

/// The first profile of a given name.
pub open spec fn named(list: Seq<TomlView>, name: Seq<char>) -> Option<TomlView>
    decreases list.len(),
{
    if list.len() == 0 {
        None
    } else if list[0].inner.name == name {
        Some(list[0])
    } else {
        named(list.skip(1), name)
    }
}

/// The first profile of a given name.
pub fn find_profile<'a>(list: &'a Vec<TomlProfile>, name: &str) -> (r: Option<&'a TomlProfile>)
    ensures
        match r {
            Some(p) => named(views(list@), name@) == Some(p@),
            None => named(views(list@), name@) is None,
        },
{
    let ghost all = views(list@);
    let mut i: usize = 0;
    assert(all.skip(0) =~= all);
    while i < list.len()
        invariant
            i <= list@.len(),
            all == views(list@),
            named(all, name@) == named(all.skip(i as int), name@),
        decreases list@.len() - i,
    {
        proof {
            assert(all.skip(i as int)[0] == list@[i as int]@);
            assert(all.skip(i as int).skip(1) =~= all.skip(i + 1));
        }
        if text::str_eq(list[i].inner.name.as_str(), name) {
            return Some(&list[i]);
        }
        i += 1;
    }
    None
}

/// The profile for the connected monitors: the first with the name of the selected one.
pub open spec fn selected(signature: Seq<Seq<char>>, list: Seq<TomlView>) -> Option<TomlView> {
    match profiles::chosen(signature, inners(list)) {
        Some(p) => named(list, p.name),
        None => None,
    }
}

/// What selection reads of each profile, as a list of its own.
fn inner_profiles(list: &Vec<TomlProfile>) -> (r: Vec<Profile>)
    ensures
        profiles::views(r@) == inners(views(list@)),
{
    let ghost want = inners(views(list@));
    let mut out: Vec<Profile> = Vec::new();
    let mut i: usize = 0;
    while i < list.len()
        invariant
            i <= list@.len(),
            want == inners(views(list@)),
            out@.len() == i,
            forall|k: int| 0 <= k < i ==> (#[trigger] out@[k])@ == want[k],
        decreases list@.len() - i,
    {
        out.push(list[i].inner.clone());
        i += 1;
    }
    assert(profiles::views(out@) =~= want);
    out
}

/// The profile for the connected monitors.
pub fn select_profile<'a>(signature: &Vec<String>, list: &'a Vec<TomlProfile>) -> (r: Option<
    &'a TomlProfile,
>)
    ensures
        match r {
            Some(p) => selected(text::strings(signature@), views(list@)) == Some(p@),
            None => selected(text::strings(signature@), views(list@)) is None,
        },
{
    let inner = inner_profiles(list);
    match choose_profile(signature, &inner) {
        Some(p) => find_profile(list, p.name.as_str()),
        None => None,
    }
}

// ---------------------------------------------------------------------- laws

proof fn lemma_named(list: Seq<TomlView>, i: int)
    requires
        0 <= i < list.len(),
        forall|j: int| 0 <= j < i ==> (#[trigger] list[j]).inner.name != list[i].inner.name,
    ensures
        named(list, list[i].inner.name) == Some(list[i]),
    decreases i,
{
    if i > 0 {
        let rest = list.skip(1);
        assert(list[0].inner.name != list[i].inner.name);
        assert forall|j: int| 0 <= j < i - 1 implies (#[trigger] rest[j]).inner.name != rest[i
            - 1].inner.name by {
            assert(rest[j] == list[j + 1]);
        }
        lemma_named(rest, i - 1);
        assert(rest[i - 1] == list[i]);
    }
}

/// Where names are distinct, the layout that comes with a selection is the selected
/// profile's own, and there is a selection exactly where any profile is eligible.
pub proof fn selection_keeps_its_layout(signature: Seq<Seq<char>>, list: Seq<TomlView>)
    requires
        forall|i: int, j: int|
            0 <= i < j < list.len() ==> (#[trigger] list[i]).inner.name != (
            #[trigger] list[j]).inner.name,
    ensures
        match selected(signature, list) {
            Some(t) => list.contains(t) && profiles::chosen(signature, inners(list)) == Some(
                t.inner,
            ),
            None => forall|i: int|
                0 <= i < list.len() ==> !profiles::eligible(#[trigger] list[i].inner, signature),
        },
{
    let all = inners(list);
    if exists|i: int| profiles::is_selected(signature, all, i) {
        let i = choose|i: int| profiles::is_selected(signature, all, i);
        assert(all[i] == list[i].inner);
        lemma_named(list, i);
    } else {
        assert forall|i: int| 0 <= i < list.len() implies !profiles::eligible(
            #[trigger] list[i].inner,
            signature,
        ) by {
            if profiles::eligible(list[i].inner, signature) {
                assert(all[i] == list[i].inner);
                profiles::selection_exists(signature, all, i);
            }
        }
    }
}

/// Two sources that differ in the layout alone are not the same.
pub proof fn a_changed_layout_is_a_change(a: TomlView, b: TomlView)
    requires
        a.inner == b.inner,
        a.layout != b.layout,
    ensures
        a != b,
{
}

} // verus!
