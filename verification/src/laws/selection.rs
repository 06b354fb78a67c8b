//! What a GPU selection gives: when there is one, which card renders, which cards are
//! opened, and what mode it is made in.
use vstd::prelude::*;

use crate::gpu;
use crate::gpu::{CardView, GpuMode, GpuModeSource};

verus! {

/// The device node of the card at a position.
pub open spec fn node(cards: Seq<CardView>, i: int) -> Seq<char> {
    "/dev/dri/"@ + cards[i].card
}

/// The card at `a` is wanted more: more external displays, or as many and more memory.
pub open spec fn outranks(cards: Seq<CardView>, a: int, b: int) -> bool {
    cards[a].external > cards[b].external || cards[a].external == cards[b].external
        && cards[a].vram > cards[b].vram
}

// ----------------------------------------------------------------- classification

/// The only boot device is the integrated card where no card has less memory; where one
/// has, the two signals disagree and no card is.
pub proof fn boot_device_and_memory_agree(cards: Seq<CardView>, i: int, k: int)
    requires
        0 <= i < cards.len(),
        cards[i].boot_vga == 1,
        forall|j: int|
            0 <= j < cards.len() && j != i ==> (#[trigger] cards[j]).boot_vga != 1,
    ensures
        (forall|j: int| 0 <= j < cards.len() ==> cards[i].vram <= (#[trigger] cards[j]).vram)
            ==> gpu::is_integrated(cards, i),
        (exists|j: int| 0 <= j < cards.len() && cards[i].vram > (#[trigger] cards[j]).vram)
            ==> !gpu::is_integrated(cards, k),
        gpu::is_integrated(cards, k) ==> k == i,
{
    if gpu::is_integrated(cards, k) && k != i {
        assert(cards[k].boot_vga != 1);
        assert(cards[i].boot_vga != 1);
    }
    if exists|j: int| 0 <= j < cards.len() && cards[i].vram > (#[trigger] cards[j]).vram {
        let j = choose|j: int| 0 <= j < cards.len() && cards[i].vram > (#[trigger] cards[j]).vram;
        if gpu::is_integrated(cards, k) {
            assert(cards[k].vram <= cards[j].vram);
        }
    }
}

/// Without any boot device the card with strictly the least memory is the integrated one;
/// two cards that share the least leave the question open, and so do two boot devices.
pub proof fn memory_alone_must_tell_cards_apart(cards: Seq<CardView>, i: int, j: int, k: int)
    requires
        0 <= i < cards.len(),
        0 <= j < cards.len(),
        i != j,
    ensures
        (forall|n: int| 0 <= n < cards.len() ==> (#[trigger] cards[n]).boot_vga != 1) && (forall|
            n: int,
        |
            0 <= n < cards.len() && n != i ==> cards[i].vram < (#[trigger] cards[n]).vram)
            ==> gpu::is_integrated(cards, i),
        (forall|n: int| 0 <= n < cards.len() ==> (#[trigger] cards[n]).boot_vga != 1)
            && cards[i].vram == cards[j].vram && (forall|n: int|
            0 <= n < cards.len() ==> cards[i].vram <= (#[trigger] cards[n]).vram)
            ==> !gpu::is_integrated(cards, k),
        cards[i].boot_vga == 1 && cards[j].boot_vga == 1 ==> !gpu::is_integrated(cards, k),
{
    if forall|n: int| 0 <= n < cards.len() ==> (#[trigger] cards[n]).boot_vga != 1 {
        if forall|n: int| 0 <= n < cards.len() && n != i ==> cards[i].vram < (#[trigger] cards[n]).vram {
            assert(gpu::least_vram(cards, i));
            assert(gpu::no_boot_vga(cards));
        }
        if gpu::is_integrated(cards, k) {
            assert(cards[k].boot_vga != 1);
        }
    }
    if cards[i].boot_vga == 1 && cards[j].boot_vga == 1 && gpu::is_integrated(cards, k) {
        assert(cards[k].boot_vga == 1 || gpu::no_boot_vga(cards));
    }
}

// ---------------------------------------------------------------------- being managed

/// A managed machine has two cards or more of which one is known to be the integrated
/// one, no display on anything else, and is not switched off.
pub open spec fn manageable(cards: Seq<CardView>, non_pci_display: bool, mode: GpuMode, i: int) -> bool {
    &&& mode != GpuMode::Off
    &&& cards.len() >= 2
    &&& !non_pci_display
    &&& gpu::is_integrated(cards, i)
}

proof fn lemma_parts(cards: Seq<CardView>, mode: GpuMode, source: GpuModeSource, i: int)
    requires
        cards.len() >= 2,
        gpu::is_integrated(cards, i),
    ensures
        i == choose|i: int| gpu::is_integrated(cards, i),
        ({
            let order = gpu::discretes(cards, i);
            let p = gpu::primary_of(cards, i, mode, source).0;
            &&& order.len() == cards.len() - 1
            &&& 0 <= order[0] < cards.len() && order[0] != i
            &&& 0 <= p < cards.len()
            &&& gpu::listed(cards, i, p).len() > 0
            &&& gpu::listed(cards, i, p)[0] == p
            &&& gpu::listed(cards, i, p).contains(i)
            &&& forall|y: int|
                #[trigger] gpu::listed(cards, i, p).contains(y) ==> 0 <= y < cards.len()
            &&& forall|j: int| #![trigger cards[j]]
                0 <= j < cards.len() && j != i ==> !outranks(cards, j, order[0])
        }),
{
    let chosen = choose|i: int| gpu::is_integrated(cards, i);
    gpu::integrated_is_unique(cards, i, chosen);
    gpu::ranking_is_complete(cards, i, cards.len() as int);
    gpu::ranking_is_sorted(cards, i, cards.len() as int);
    let order = gpu::discretes(cards, i);
    assert(order.contains(order[0]));
    let p = gpu::primary_of(cards, i, mode, source).0;
    gpu::listed_cards(cards, i, p);
    assert forall|j: int| #![trigger cards[j]]
        0 <= j < cards.len() && j != i implies !outranks(cards, j, order[0]) by {
        assert(order.contains(j));
        let k = choose|k: int| 0 <= k < order.len() && order[k] == j;
        if k > 0 {
            assert(!gpu::wanted_before(cards, order[k], order[0]));
        }
    }
}

/// A manageable machine gets a list exactly where something can light up: an external
/// display on any card, or an internal panel under an open lid. Otherwise nothing is
/// connected yet, and the reason says that this may pass.
pub proof fn there_is_a_list_where_something_can_light_up(
    cards: Seq<CardView>,
    lid_closed: bool,
    mode: GpuMode,
    source: GpuModeSource,
    i: int,
)
    requires
        manageable(cards, false, mode, i),
    ensures
        ({
            let s = gpu::selection_of(cards, false, lid_closed, mode, source);
            let external = exists|j: int| 0 <= j < cards.len() && (#[trigger] cards[j]).external > 0;
            let internal = exists|j: int| 0 <= j < cards.len() && (#[trigger] cards[j]).edp > 0;
            &&& s.0 is Some <==> external || (!lid_closed && internal)
            &&& s.0 is None ==> s.1 == "bailed-transient"@
        }),
{
    lemma_parts(cards, mode, source, i);
    let p = gpu::primary_of(cards, i, mode, source).0;
    let devices = gpu::listed(cards, i, p);
    gpu::listed_cards(cards, i, p);
    if exists|j: int| 0 <= j < cards.len() && (#[trigger] cards[j]).external > 0 {
        let j = choose|j: int| 0 <= j < cards.len() && (#[trigger] cards[j]).external > 0;
        assert(devices.contains(j));
        let k = choose|k: int| 0 <= k < devices.len() && devices[k] == j;
        assert(cards[devices[k]].external > 0);
    }
    if exists|j: int| 0 <= j < cards.len() && (#[trigger] cards[j]).edp > 0 {
        let j = choose|j: int| 0 <= j < cards.len() && (#[trigger] cards[j]).edp > 0;
        assert(devices.contains(j));
        let k = choose|k: int| 0 <= k < devices.len() && devices[k] == j;
        assert(cards[devices[k]].edp > 0);
    }
    assert forall|k: int| 0 <= k < devices.len() implies 0 <= #[trigger] devices[k] < cards.len() by {
        assert(devices.contains(devices[k]));
    }
}

/// With an external display the lid makes no difference: a login with the lid closed gets
/// the same list, for the same reason, as one with the lid open.
pub proof fn docked_logins_are_managed(
    cards: Seq<CardView>,
    mode: GpuMode,
    source: GpuModeSource,
    i: int,
    shown: int,
)
    requires
        manageable(cards, false, mode, i),
        0 <= shown < cards.len(),
        cards[shown].external > 0,
    ensures
        gpu::selection_of(cards, false, true, mode, source) == gpu::selection_of(
            cards,
            false,
            false,
            mode,
            source,
        ),
        gpu::selection_of(cards, false, true, mode, source).0 is Some,
{
    there_is_a_list_where_something_can_light_up(cards, true, mode, source, i);
    there_is_a_list_where_something_can_light_up(cards, false, mode, source, i);
    lemma_parts(cards, mode, source, i);
}

/// Why a session is left alone, in the order in which that is asked.
pub proof fn unmanaged_sessions_say_why(
    cards: Seq<CardView>,
    non_pci_display: bool,
    lid_closed: bool,
    mode: GpuMode,
    source: GpuModeSource,
)
    ensures
        ({
            let s = gpu::selection_of(cards, non_pci_display, lid_closed, mode, source);
            let known = exists|i: int| gpu::is_integrated(cards, i);
            &&& mode == GpuMode::Off ==> s.0 is None && s.1 == "override-off"@
            &&& mode != GpuMode::Off && cards.len() < 2 ==> s.0 is None && s.1 == "no-multi-gpu"@
            &&& mode != GpuMode::Off && cards.len() >= 2 && non_pci_display ==> s.0 is None && s.1
                == "non-pci-display-present"@
            &&& mode != GpuMode::Off && cards.len() >= 2 && !non_pci_display && !known ==> s.0 is None
                && s.1 == "ambiguous-integrated"@
        }),
{
}

// ------------------------------------------------------------------------- the list

/// The list opens the integrated card and every card with a display, and no idle card but
/// the one that renders. The one that renders comes first.
pub proof fn lists_hold_the_right_cards(
    cards: Seq<CardView>,
    lid_closed: bool,
    mode: GpuMode,
    source: GpuModeSource,
    i: int,
)
    requires
        manageable(cards, false, mode, i),
        gpu::selection_of(cards, false, lid_closed, mode, source).0 is Some,
    ensures
        ({
            let list = gpu::selection_of(cards, false, lid_closed, mode, source).0->0;
            &&& list.len() > 0
            &&& list.contains(node(cards, i))
            &&& forall|j: int| #![trigger cards[j]]
                0 <= j < cards.len() && (cards[j].external > 0 || cards[j].edp > 0)
                    ==> list.contains(node(cards, j))
            &&& forall|k: int|
                0 < k < list.len() ==> exists|j: int| #![trigger cards[j]]
                    0 <= j < cards.len() && #[trigger] list[k] == node(cards, j) && (j == i
                        || cards[j].external > 0 || cards[j].edp > 0)
        }),
{
    lemma_parts(cards, mode, source, i);
    let p = gpu::primary_of(cards, i, mode, source).0;
    let devices = gpu::listed(cards, i, p);
    gpu::listed_cards(cards, i, p);
    let list = gpu::selection_of(cards, false, lid_closed, mode, source).0->0;
    assert(list == gpu::nodes(cards, devices));
    assert forall|y: int| #[trigger] devices.contains(y) implies list.contains(node(cards, y)) by {
        let k = choose|k: int| 0 <= k < devices.len() && devices[k] == y;
        assert(list[k] == node(cards, y));
    }
    assert forall|j: int| #![trigger cards[j]]
        0 <= j < cards.len() && (cards[j].external > 0 || cards[j].edp > 0) implies list.contains(
        node(cards, j),
    ) by {
        assert(devices.contains(j));
    }
    assert forall|k: int| 0 < k < list.len() implies exists|j: int| #![trigger cards[j]]
        0 <= j < cards.len() && #[trigger] list[k] == node(cards, j) && (j == i || cards[j].external
            > 0 || cards[j].edp > 0) by {
        let j = devices[k];
        assert(devices.contains(j));
        assert(devices[0] == p && devices[k] != devices[0]);
        assert(list[k] == node(cards, j));
        assert(cards[j] == cards[j]);
    }
}

/// Which card renders: in `igpu` mode the integrated one, in `dgpu` mode a discrete one
/// that no other outranks. On its own the selection renders on the discrete card that no
/// other outranks where a display hangs on it, and on the integrated one otherwise. The
/// reason names what decided.
pub proof fn the_right_card_renders(
    cards: Seq<CardView>,
    lid_closed: bool,
    mode: GpuMode,
    source: GpuModeSource,
    i: int,
)
    requires
        manageable(cards, false, mode, i),
        gpu::selection_of(cards, false, lid_closed, mode, source).0 is Some,
    ensures
        ({
            let s = gpu::selection_of(cards, false, lid_closed, mode, source);
            let first = s.0->0[0];
            let best = |b: int|
                0 <= b < cards.len() && b != i && forall|j: int| #![trigger cards[j]]
                    0 <= j < cards.len() && j != i ==> !outranks(cards, j, b);
            &&& mode == GpuMode::Igpu ==> first == node(cards, i) && s.1 == source.word() + "-igpu"@
            &&& mode == GpuMode::Dgpu ==> s.1 == source.word() + "-dgpu"@ && exists|b: int|
                #[trigger] best(b) && first == node(cards, b)
            &&& mode == GpuMode::Auto ==> exists|b: int| #[trigger]
                best(b) && (if cards[b].external > 0 || cards[b].edp > 0 {
                    first == node(cards, b) && s.1 == "dgpu-has-display"@
                } else {
                    first == node(cards, i) && s.1 == "dgpu-idle-omitted"@
                })
        }),
{
    lemma_parts(cards, mode, source, i);
    let p = gpu::primary_of(cards, i, mode, source).0;
    let devices = gpu::listed(cards, i, p);
    let s = gpu::selection_of(cards, false, lid_closed, mode, source);
    assert(s.0->0 == gpu::nodes(cards, devices));
    assert(s.0->0[0] == node(cards, p));
    let b = gpu::discretes(cards, i)[0];
    let best = |b: int|
        0 <= b < cards.len() && b != i && forall|j: int| #![trigger cards[j]]
            0 <= j < cards.len() && j != i ==> !outranks(cards, j, b);
    assert(best(b));
}

/// An external display on a discrete card makes the selection, on its own, render on a
/// discrete card with the most external displays.
pub proof fn displays_draw_the_rendering(
    cards: Seq<CardView>,
    lid_closed: bool,
    source: GpuModeSource,
    i: int,
    shown: int,
)
    requires
        manageable(cards, false, GpuMode::Auto, i),
        0 <= shown < cards.len(),
        shown != i,
        cards[shown].external > 0,
    ensures
        ({
            let s = gpu::selection_of(cards, false, lid_closed, GpuMode::Auto, source);
            &&& s.0 is Some
            &&& s.1 == "dgpu-has-display"@
            &&& exists|b: int| #![trigger cards[b]]
                0 <= b < cards.len() && b != i && cards[b].external >= cards[shown].external
                    && s.0->0[0] == node(cards, b)
        }),
{
    there_is_a_list_where_something_can_light_up(cards, lid_closed, GpuMode::Auto, source, i);
    lemma_parts(cards, GpuMode::Auto, source, i);
    let b = gpu::discretes(cards, i)[0];
    assert(!outranks(cards, shown, b));
    let s = gpu::selection_of(cards, false, lid_closed, GpuMode::Auto, source);
    let p = gpu::primary_of(cards, i, GpuMode::Auto, source).0;
    assert(s.0->0 == gpu::nodes(cards, gpu::listed(cards, i, p)));
    assert(s.0->0[0] == node(cards, b));
    assert(cards[b].external >= cards[shown].external);
}

// ------------------------------------------------------------------------- the mode

/// A word of the override file decides alone; `auto`, an unknown word and a missing file
/// leave it to the profile, that to the platform profile, and that to the selection
/// itself. Only an unknown word is warned about.
pub proof fn the_first_that_names_a_mode_decides(
    over: Option<Seq<char>>,
    overlay: Option<Seq<char>>,
    platform: Option<Seq<char>>,
)
    ensures
        ({
            let (mode, source) = gpu::mode_of(over, overlay, platform);
            let pinned = over == Some("igpu"@) || over == Some("dgpu"@) || over == Some("off"@);
            let asked = overlay == Some("igpu"@) || overlay == Some("dgpu"@);
            let saving = platform == Some("low-power"@) || platform == Some("quiet"@);
            let racing = platform == Some("performance"@);
            &&& over == Some("igpu"@) ==> mode == GpuMode::Igpu
            &&& over == Some("dgpu"@) ==> mode == GpuMode::Dgpu
            &&& over == Some("off"@) ==> mode == GpuMode::Off
            &&& source == GpuModeSource::Override <==> pinned
            &&& !pinned && overlay == Some("igpu"@) ==> mode == GpuMode::Igpu
            &&& !pinned && overlay == Some("dgpu"@) ==> mode == GpuMode::Dgpu
            &&& source == GpuModeSource::Profile <==> !pinned && asked
            &&& !pinned && !asked && saving ==> mode == GpuMode::Igpu
            &&& !pinned && !asked && racing ==> mode == GpuMode::Dgpu
            &&& source == GpuModeSource::Platform <==> !pinned && !asked && (saving || racing)
            &&& !pinned && !asked && !saving && !racing ==> mode == GpuMode::Auto && source
                == GpuModeSource::Default
            &&& gpu::mode_warnings(over).len() == (if over is Some && !pinned && over != Some(
                "auto"@,
            ) {
                1nat
            } else {
                0nat
            })
        }),
{
    reveal_strlit("igpu");
    reveal_strlit("dgpu");
    reveal_strlit("off");
    reveal_strlit("low-power");
    reveal_strlit("quiet");
    reveal_strlit("performance");
    assert("igpu"@[0] != "dgpu"@[0]);
    assert("off"@.len() != "igpu"@.len());
    assert("performance"@[0] != "low-power"@[0]);
    assert("performance"@[0] != "quiet"@[0]);
}

/// The names of the modes and of what decided them.
pub proof fn modes_and_sources_have_their_names()
    ensures
        GpuMode::Auto.word() == "auto"@,
        GpuMode::Igpu.word() == "igpu"@,
        GpuMode::Dgpu.word() == "dgpu"@,
        GpuMode::Off.word() == "off"@,
        GpuModeSource::Override.word() == "override"@,
        GpuModeSource::Profile.word() == "profile"@,
        GpuModeSource::Platform.word() == "platform"@,
        GpuModeSource::Default.word() == "default"@,
{
}

} // verus!
