//! The record of a GPU selection, for status reports. What the session really runs on
//! is read from the compositor's environment, never from here.
use vstd::prelude::*;

use crate::gpu;
use crate::gpu::{devnode, integrated_card, pci_key, CardView, GpuCard, GpuSnapshot};
use crate::text;

verus! {

/// One card in the record.
#[derive(Debug)]
pub struct CardRecord {
    /// `integrated` or `discrete`.
    pub kind: String,
    pub boot_vga: u32,
    pub vram: u64,
    pub external: u32,
    pub edp: u32,
}

/// What a [`CardRecord`] holds, with the key of the card.
pub struct RecordView {
    pub key: Seq<char>,
    pub kind: Seq<char>,
    pub boot_vga: u32,
    pub vram: u64,
    pub external: u32,
    pub edp: u32,
}

/// The record of a selection.
#[derive(Debug)]
pub struct GpuStateFile {
    pub version: u32,
    pub mode: String,
    pub reason: String,
    pub primary: Option<String>,
    pub devices: Vec<String>,
    pub omitted: Vec<String>,
    pub snapshot: Vec<(String, CardRecord)>,
}

/// What a [`GpuStateFile`] holds.
pub struct StateView {
    pub version: u32,
    pub mode: Seq<char>,
    pub reason: Seq<char>,
    pub primary: Option<Seq<char>>,
    pub devices: Seq<Seq<char>>,
    pub omitted: Seq<Seq<char>>,
    pub snapshot: Seq<RecordView>,
}

pub open spec fn record_view(r: (String, CardRecord)) -> RecordView {
    RecordView {
        key: r.0@,
        kind: r.1.kind@,
        boot_vga: r.1.boot_vga,
        vram: r.1.vram,
        external: r.1.external,
        edp: r.1.edp,
    }
}

pub open spec fn record_views(s: Seq<(String, CardRecord)>) -> Seq<RecordView> {
    Seq::new(s.len(), |i: int| record_view(s[i]))
}

impl View for GpuStateFile {
    type V = StateView;

    open spec fn view(&self) -> StateView {
        StateView {
            version: self.version,
            mode: self.mode@,
            reason: self.reason@,
            primary: text::opt_string(self.primary),
            devices: text::strings(self.devices@),
            omitted: text::strings(self.omitted@),
            snapshot: record_views(self.snapshot@),
        }
    }
}

/// The device nodes that a selection leaves out; all of them without a selection.
pub open spec fn left_out(cards: Seq<CardView>, devices: Option<Seq<Seq<char>>>) -> Seq<Seq<char>>
    decreases cards.len(),
{
    if cards.len() == 0 {
        seq![]
    } else {
        let rest = left_out(cards.drop_last(), devices);
        let node = gpu::devnode_of(cards.last());
        if devices matches Some(d) && d.contains(node) {
            rest
        } else {
            rest.push(node)
        }
    }
}

/// The card is the integrated one of several.
pub open spec fn is_integrated_of_several(cards: Seq<CardView>, i: int) -> bool {
    cards.len() >= 2 && gpu::is_integrated(cards, i)
}

/// The record of one card.
pub open spec fn recorded(cards: Seq<CardView>, i: int) -> RecordView {
    let c = cards[i];
    RecordView {
        key: gpu::key_of(c.path),
        kind: if is_integrated_of_several(cards, i) {
            "integrated"@
        } else {
            "discrete"@
        },
        boot_vga: c.boot_vga,
        vram: c.vram,
        external: c.external,
        edp: c.edp,
    }
}

/// The record of a selection.
pub open spec fn state_of(
    mode: Seq<char>,
    reason: Seq<char>,
    devices: Option<Seq<Seq<char>>>,
    cards: Seq<CardView>,
) -> StateView {
    let list = match devices {
        Some(d) => d,
        None => seq![],
    };
    StateView {
        version: 1,
        mode,
        reason,
        primary: if list.len() > 0 {
            Some(list[0])
        } else {
            None
        },
        devices: list,
        omitted: left_out(cards, devices),
        snapshot: Seq::new(cards.len(), |i: int| recorded(cards, i)),
    }
}

fn omitted_nodes(cards: &Vec<GpuCard>, devices: Option<&Vec<String>>) -> (r: Vec<String>)
    ensures
        text::strings(r@) == left_out(
            gpu::card_views(cards@),
            match devices {
                Some(d) => Some(text::strings(d@)),
                None => None,
            },
        ),
{
    let ghost all = gpu::card_views(cards@);
    let ghost list = match devices {
        Some(d) => Some(text::strings(d@)),
        None => None,
    };
    let mut out: Vec<String> = Vec::new();
    assert(text::strings(out@) =~= left_out(all.take(0), list));
    let mut i: usize = 0;
    while i < cards.len()
        invariant
            i <= cards@.len(),
            all == gpu::card_views(cards@),
            list == (match devices {
                Some(d) => Some(text::strings(d@)),
                None => None,
            }),
            text::strings(out@) == left_out(all.take(i as int), list),
        decreases cards@.len() - i,
    {
        proof {
            let next = all.take(i + 1);
            assert(next.drop_last() =~= all.take(i as int));
            assert(next.last() == cards@[i as int]@);
        }
        let node = devnode(&cards[i]);
        let listed = match devices {
            Some(d) => text::string_in(node.as_str(), d),
            None => false,
        };
        let ghost before = text::strings(out@);
        if !listed {
            let ghost n = node@;
            out.push(node);
            assert(text::strings(out@) =~= before.push(n));
        }
        i += 1;
    }
    assert(all.take(all.len() as int) =~= all);
    out
}

fn record(cards: &Vec<GpuCard>, integrated: Option<usize>, i: usize) -> (r: (String, CardRecord))
    requires
        i < cards@.len(),
        forall|k: int|
            0 <= k < cards@.len() ==> (integrated == Some(k as usize)) == #[trigger] is_integrated_of_several(
                gpu::card_views(cards@),
                k,
            ),
    ensures
        record_view(r) == recorded(gpu::card_views(cards@), i as int),
{
    let c = &cards[i];
    let marked = match integrated {
        Some(k) => k == i,
        None => false,
    };
    assert(marked == is_integrated_of_several(gpu::card_views(cards@), i as int));
    let kind = if marked {
        "integrated"
    } else {
        "discrete"
    };
    (
        String::from_str(pci_key(c.path.as_str())),
        CardRecord {
            kind: String::from_str(kind),
            boot_vga: c.boot_vga,
            vram: c.vram,
            external: c.external,
            edp: c.edp,
        },
    )
}

/// The integrated card of several; with one card nothing is told apart.
pub fn integrated_of_several(cards: &Vec<GpuCard>) -> (r: Option<usize>)
    ensures
        r matches Some(k) ==> k < cards@.len(),
        forall|k: int|
            0 <= k < cards@.len() ==> (r == Some(k as usize)) == #[trigger] is_integrated_of_several(
                gpu::card_views(cards@),
                k,
            ),
{
    if cards.len() >= 2 {
        let r = integrated_card(cards.as_slice());
        proof {
            assert forall|k: int| 0 <= k < cards@.len() implies (r == Some(k as usize))
                == #[trigger] is_integrated_of_several(gpu::card_views(cards@), k) by {
                if r is Some && gpu::is_integrated(gpu::card_views(cards@), k) {
                    gpu::integrated_is_unique(gpu::card_views(cards@), r->0 as int, k);
                }
            }
        }
        r
    } else {
        None
    }
}

/// The record of a selection: without devices the session is left to the compositor's
/// defaults.
pub fn gpu_state(
    mode: &str,
    reason: &str,
    devices: Option<&Vec<String>>,
    snap: &GpuSnapshot,
) -> (r: GpuStateFile)
    ensures
        r@ == state_of(
            mode@,
            reason@,
            match devices {
                Some(d) => Some(text::strings(d@)),
                None => None,
            },
            gpu::card_views(snap.cards@),
        ),
{
    let integrated = integrated_of_several(&snap.cards);
    let omitted = omitted_nodes(&snap.cards, devices);
    let list: Vec<String> = match devices {
        Some(d) => d.clone(),
        None => Vec::new(),
    };
    assert(text::strings(list@) =~= match devices {
        Some(d) => text::strings(d@),
        None => seq![],
    });
    let primary = if list.len() > 0 {
        assert(text::strings(list@)[0] == list@[0]@);
        Some(list[0].clone())
    } else {
        None
    };
    let ghost all = gpu::card_views(snap.cards@);
    let mut snapshot: Vec<(String, CardRecord)> = Vec::new();
    let mut i: usize = 0;
    while i < snap.cards.len()
        invariant
            i <= snap.cards@.len(),
            all == gpu::card_views(snap.cards@),
            snapshot@.len() == i,
            forall|k: int|
                0 <= k < snap.cards@.len() ==> (integrated == Some(k as usize))
                    == #[trigger] is_integrated_of_several(gpu::card_views(snap.cards@), k),
            forall|k: int| 0 <= k < i ==> record_view(#[trigger] snapshot@[k]) == recorded(all, k),
        decreases snap.cards@.len() - i,
    {
        snapshot.push(record(&snap.cards, integrated, i));
        i += 1;
    }
    let r = GpuStateFile {
        version: 1,
        mode: String::from_str(mode),
        reason: String::from_str(reason),
        primary,
        devices: list,
        omitted,
        snapshot,
    };
    assert(r@.snapshot =~= Seq::new(all.len(), |i: int| recorded(all, i)));
    r
}

// ------------------------------------------------------------------------- laws

/// Every card is either listed or left out.
pub proof fn cards_are_listed_or_left_out(cards: Seq<CardView>, devices: Seq<Seq<char>>, i: int)
    requires
        0 <= i < cards.len(),
    ensures
        devices.contains(gpu::devnode_of(cards[i])) || left_out(cards, Some(devices)).contains(
            gpu::devnode_of(cards[i]),
        ),
    decreases cards.len(),
{
    let node = gpu::devnode_of(cards[i]);
    let rest = left_out(cards.drop_last(), Some(devices));
    let all = left_out(cards, Some(devices));
    if !devices.contains(node) {
        if i == cards.len() - 1 {
            assert(all.last() == node);
        } else {
            cards_are_listed_or_left_out(cards.drop_last(), devices, i);
            let k = choose|k: int| 0 <= k < rest.len() && rest[k] == node;
            assert(all[k] == node);
        }
    }
}

/// Nothing that is listed is left out.
pub proof fn listed_cards_are_not_left_out(
    cards: Seq<CardView>,
    devices: Seq<Seq<char>>,
    node: Seq<char>,
)
    requires
        devices.contains(node),
    ensures
        !left_out(cards, Some(devices)).contains(node),
    decreases cards.len(),
{
    if cards.len() > 0 {
        listed_cards_are_not_left_out(cards.drop_last(), devices, node);
        let rest = left_out(cards.drop_last(), Some(devices));
        let all = left_out(cards, Some(devices));
        if all.contains(node) {
            let k = choose|k: int| 0 <= k < all.len() && all[k] == node;
            if k < rest.len() {
                assert(rest[k] == node);
            }
        }
    }
}

} // verus!
