//! What files under `/sys` and `/proc` say. All best-effort: a missing or
//! unreadable file (`None` here) resolves to a default.
use vstd::prelude::*;

use crate::gpu::{CardView, GpuCard, GpuSnapshot};
use crate::number;
use crate::order;
use crate::text;

verus! {

/// The first word of a file, or `None` where it is unreadable or empty.
pub open spec fn first_word_in(content: Option<Seq<char>>) -> Option<Seq<char>> {
    match content {
        Some(s) => text::first_word_of(s),
        None => None,
    }
}

/// The first white-space separated word of a file's content.
pub fn read_first_word(content: Option<&str>) -> (r: Option<String>)
    ensures
        text::opt_string(r) == first_word_in(text::opt_str(content)),
{
    match content {
        Some(s) => match text::first_word(s) {
            Some(w) => Some(String::from_str(w)),
            None => None,
        },
        None => None,
    }
}

/// The number that a file states: hexadecimal behind `0x`, decimal otherwise.
pub open spec fn number_in(s: Seq<char>) -> Option<int> {
    let t = text::trimmed(s);
    if text::has_prefix(t, "0x"@) || text::has_prefix(t, "0X"@) {
        number::within(number::hex_of(t.skip(2)), 0, u64::MAX as int)
    } else {
        number::within(number::natural_of(t), 0, u64::MAX as int)
    }
}

/// The number that a file states, or the default where it states none.
pub open spec fn int_in(content: Option<Seq<char>>, default: int) -> int {
    match content {
        Some(s) => match number_in(s) {
            Some(n) => n,
            None => default,
        },
        None => default,
    }
}

/// The number in a file's content; `default` on any failure.
pub fn read_int(content: Option<&str>, default: u64) -> (r: u64)
    ensures
        r == int_in(text::opt_str(content), default as int),
{
    let s = match content {
        Some(s) => text::trim(s),
        None => {
            return default;
        },
    };
    proof {
        reveal_strlit("0x");
        reveal_strlit("0X");
    }
    let parsed = match text::strip_prefix(s, "0x") {
        Some(hex) => number::parse_hex_u64(hex),
        None => match text::strip_prefix(s, "0X") {
            Some(hex) => number::parse_hex_u64(hex),
            None => number::parse_u64(s),
        },
    };
    match parsed {
        Some(n) => n,
        None => default,
    }
}

// ---------------------------------------------------------------- connectors

/// One entry of `/sys/class/drm` with the content of its `status` file.
#[derive(Debug)]
pub struct Connector {
    pub name: String,
    pub status: Option<String>,
}

/// What a connector entry holds.
pub struct ConnectorView {
    pub name: Seq<char>,
    pub status: Option<Seq<char>>,
}

impl View for Connector {
    type V = ConnectorView;

    open spec fn view(&self) -> ConnectorView {
        ConnectorView { name: self.name@, status: text::opt_string(self.status) }
    }
}

/// What each connector entry holds.
pub open spec fn connector_views(s: Seq<Connector>) -> Seq<ConnectorView> {
    Seq::new(s.len(), |i: int| s[i]@)
}

impl ConnectorView {
    /// The entry is a connected output of the card; write-back connectors are none.
    pub open spec fn lit_on(self, card: Seq<char>) -> bool {
        &&& text::has_prefix(self.name, card + "-"@)
        &&& !text::has_part(self.name, "-Writeback-"@)
        &&& self.status matches Some(s) && text::trimmed(s) == "connected"@
    }

    /// The entry is an internal panel.
    pub open spec fn is_panel(self) -> bool {
        text::has_part(self.name, "eDP"@)
    }
}

/// How many connected outputs of a card are external, and how many are panels.
pub open spec fn connected(conns: Seq<ConnectorView>, card: Seq<char>) -> (nat, nat)
    decreases conns.len(),
{
    if conns.len() == 0 {
        (0, 0)
    } else {
        let (external, edp) = connected(conns.drop_last(), card);
        let c = conns.last();
        if !c.lit_on(card) {
            (external, edp)
        } else if c.is_panel() {
            (external, edp + 1)
        } else {
            (external + 1, edp)
        }
    }
}

/// Whether an entry is a connected output of the card whose name comes before the
/// given prefix's hyphen.
fn is_lit(c: &Connector, prefix: &str) -> (r: bool)
    ensures
        forall|card: Seq<char>| prefix@ == #[trigger] (card + "-"@) ==> r == c@.lit_on(card),
{
    if !text::starts_with(c.name.as_str(), prefix) || text::contains(
        c.name.as_str(),
        "-Writeback-",
    ) {
        return false;
    }
    match &c.status {
        Some(s) => text::str_eq(text::trim(s.as_str()), "connected"),
        None => false,
    }
}

/// Counts the connected outputs of a card: external ones and panels.
pub fn card_connectors(card: &str, conns: &Vec<Connector>) -> (r: (u32, u32))
    requires
        conns@.len() <= u32::MAX,
    ensures
        r.0 == connected(connector_views(conns@), card@).0,
        r.1 == connected(connector_views(conns@), card@).1,
{
    let ghost all = connector_views(conns@);
    let prefix = text::concat2(card, "-");
    let mut external: u32 = 0;
    let mut edp: u32 = 0;
    let mut i: usize = 0;
    while i < conns.len()
        invariant
            i <= conns@.len(),
            conns@.len() <= u32::MAX,
            all == connector_views(conns@),
            prefix@ == card@ + "-"@,
            external <= i,
            edp <= i,
            external == connected(all.take(i as int), card@).0,
            edp == connected(all.take(i as int), card@).1,
        decreases conns@.len() - i,
    {
        proof {
            assert(all.take(i + 1).drop_last() =~= all.take(i as int));
            assert(all.take(i + 1).last() == conns@[i as int]@);
        }
        if is_lit(&conns[i], prefix.as_str()) {
            if text::contains(conns[i].name.as_str(), "eDP") {
                edp += 1;
            } else {
                external += 1;
            }
        }
        i += 1;
    }
    assert(all.take(all.len() as int) =~= all);
    (external, edp)
}

/// The connected output that an entry stands for, and its card.
pub open spec fn output_of(c: ConnectorView) -> Option<(Seq<char>, Seq<char>)> {
    let k = text::find_of(c.name, '-');
    if c.name.contains('-') && c.lit_on(c.name.take(k as int)) {
        Some((c.name.skip(k as int + 1), c.name.take(k as int)))
    } else {
        None
    }
}

/// The connected outputs among the entries, each with its card.
pub open spec fn outputs_of(conns: Seq<ConnectorView>) -> Seq<(Seq<char>, Seq<char>)>
    decreases conns.len(),
{
    if conns.len() == 0 {
        seq![]
    } else {
        match output_of(conns.last()) {
            Some(o) => outputs_of(conns.drop_last()).push(o),
            None => outputs_of(conns.drop_last()),
        }
    }
}

/// What a list of outputs with their cards holds.
pub open spec fn output_views(s: Seq<(String, String)>) -> Seq<(Seq<char>, Seq<char>)> {
    Seq::new(s.len(), |i: int| (s[i].0@, s[i].1@))
}

fn connected_output(c: &Connector) -> (r: Option<(String, String)>)
    ensures
        match r {
            Some(o) => output_of(c@) == Some((o.0@, o.1@)),
            None => output_of(c@) is None,
        },
{
    match text::split_once(c.name.as_str(), '-') {
        Some((card, connector)) => {
            let prefix = text::concat2(card, "-");
            if is_lit(c, prefix.as_str()) {
                Some((connector.to_string(), card.to_string()))
            } else {
                None
            }
        },
        None => None,
    }
}

/// The connected outputs, each with the card that drives it.
pub fn connected_outputs(conns: &Vec<Connector>) -> (r: Vec<(String, String)>)
    ensures
        output_views(r@) == outputs_of(connector_views(conns@)),
{
    let ghost all = connector_views(conns@);
    let mut out: Vec<(String, String)> = Vec::new();
    let mut i: usize = 0;
    assert(output_views(out@) =~= outputs_of(all.take(0)));
    while i < conns.len()
        invariant
            i <= conns@.len(),
            all == connector_views(conns@),
            output_views(out@) == outputs_of(all.take(i as int)),
        decreases conns@.len() - i,
    {
        proof {
            assert(all.take(i + 1).drop_last() =~= all.take(i as int));
            assert(all.take(i + 1).last() == conns@[i as int]@);
        }
        let ghost before = output_views(out@);
        match connected_output(&conns[i]) {
            Some(o) => {
                out.push(o);
                assert(output_views(out@) =~= before.push((o.0@, o.1@)));
            },
            None => {},
        }
        i += 1;
    }
    assert(all.take(all.len() as int) =~= all);
    out
}

// ----------------------------------------------------------------------- lid

/// What the states of a list of lids hold.
pub open spec fn lid_views(s: Seq<Option<String>>) -> Seq<Option<Seq<char>>> {
    Seq::new(s.len(), |i: int| text::opt_string(s[i]))
}

/// The first lid whose state is readable is closed.
pub open spec fn lid_closed_in(states: Seq<Option<Seq<char>>>) -> bool
    decreases states.len(),
{
    if states.len() == 0 {
        false
    } else {
        match states[0] {
            Some(s) => text::has_part(s, "closed"@),
            None => lid_closed_in(states.skip(1)),
        }
    }
}

/// Whether the lid is closed, going by the contents of the lid `state` files.
pub fn lid_closed_sysfs(states: &Vec<Option<String>>) -> (r: bool)
    ensures
        r == lid_closed_in(lid_views(states@)),
{
    let ghost all = lid_views(states@);
    let mut i: usize = 0;
    assert(all.skip(0) =~= all);
    while i < states.len()
        invariant
            i <= states@.len(),
            all == lid_views(states@),
            lid_closed_in(all) == lid_closed_in(all.skip(i as int)),
        decreases states@.len() - i,
    {
        proof {
            assert(all.skip(i as int)[0] == text::opt_string(states@[i as int]));
            assert(all.skip(i as int).skip(1) =~= all.skip(i + 1));
        }
        match &states[i] {
            Some(s) => {
                return text::contains(s.as_str(), "closed");
            },
            None => {},
        }
        i += 1;
    }
    false
}

// ------------------------------------------------------------------ snapshot

/// One entry of `/dev/dri/by-path`, with what it resolves to and what its device
/// files say.
#[derive(Debug)]
pub struct DriEntry {
    /// The full path of the entry.
    pub path: String,
    /// The name that the entry resolves to; empty where it does not resolve.
    pub card: String,
    pub class: Option<String>,
    pub boot_vga: Option<String>,
    pub vram: Option<String>,
}

/// What an entry holds.
pub struct DriView {
    pub path: Seq<char>,
    pub card: Seq<char>,
    pub class: Option<Seq<char>>,
    pub boot_vga: Option<Seq<char>>,
    pub vram: Option<Seq<char>>,
}

impl View for DriEntry {
    type V = DriView;

    open spec fn view(&self) -> DriView {
        DriView {
            path: self.path@,
            card: self.card@,
            class: text::opt_string(self.class),
            boot_vga: text::opt_string(self.boot_vga),
            vram: text::opt_string(self.vram),
        }
    }
}

/// What each entry holds.
pub open spec fn dri_views(s: Seq<DriEntry>) -> Seq<DriView> {
    Seq::new(s.len(), |i: int| s[i]@)
}

impl DriView {
    /// A PCI display device that is not behind USB.
    pub open spec fn is_candidate(self) -> bool {
        let name = text::after_last(self.path, '/');
        &&& text::has_prefix(name, "pci-"@)
        &&& !text::has_part(name, "-usb-"@)
        &&& !text::has_part(name, "-usbv2-"@)
        &&& self.class matches Some(c) && text::has_prefix(text::trimmed(c), "0x03"@)
    }

    /// The card that the entry describes.
    pub open spec fn as_card(self, conns: Seq<ConnectorView>) -> CardView {
        CardView {
            path: self.path,
            card: self.card,
            boot_vga: int_in(self.boot_vga, 0) as u32,
            vram: int_in(self.vram, 0) as u64,
            external: connected(conns, self.card).0 as u32,
            edp: connected(conns, self.card).1 as u32,
        }
    }
}

/// What has been made of the entries so far.
#[verifier::ext_equal]
pub struct Found {
    pub cards: Seq<CardView>,
    pub seen: Seq<Seq<char>>,
    pub non_pci_display: bool,
}

/// What one entry adds: a candidate becomes a card; anything else only counts where
/// a display is connected to it. Each resolved name counts once.
pub open spec fn with_entry(f: Found, e: DriView, conns: Seq<ConnectorView>) -> Found {
    if !text::has_suffix(e.path, "-card"@) || !text::has_prefix(e.card, "card"@)
        || f.seen.contains(e.card) {
        f
    } else {
        let c = e.as_card(conns);
        Found {
            cards: if e.is_candidate() {
                f.cards.push(c)
            } else {
                f.cards
            },
            seen: f.seen.push(e.card),
            non_pci_display: f.non_pci_display || (!e.is_candidate() && c.has_display()),
        }
    }
}

/// What the entries amount to, taken in the given order.
pub open spec fn found(entries: Seq<DriView>, conns: Seq<ConnectorView>) -> Found
    decreases entries.len(),
{
    if entries.len() == 0 {
        Found { cards: seq![], seen: seq![], non_pci_display: false }
    } else {
        with_entry(found(entries.drop_last(), conns), entries.last(), conns)
    }
}

/// The order of positions by the paths of the entries there.
pub open spec fn by_path(entries: Seq<DriView>) -> spec_fn(int, int) -> bool {
    |a: int, b: int| text::text_less(entries[a].path, entries[b].path)
}

/// The entries by path.
pub open spec fn in_path_order(entries: Seq<DriView>) -> Seq<DriView> {
    let at = order::order(by_path(entries), entries.len() as int);
    Seq::new(entries.len(), |i: int| entries[at[i]])
}

/// Whether an entry is a PCI display device that is not behind USB.
fn is_candidate(e: &DriEntry) -> (r: bool)
    ensures
        r == e@.is_candidate(),
{
    let name = text::last_piece(e.path.as_str(), '/');
    let class_ok = match &e.class {
        Some(c) => text::starts_with(text::trim(c.as_str()), "0x03"),
        None => false,
    };
    text::starts_with(name, "pci-") && !text::contains(name, "-usb-") && !text::contains(
        name,
        "-usbv2-",
    ) && class_ok
}

/// Builds the GPU topology from the entries of `/dev/dri/by-path`, the connectors
/// and the lid states.
///
/// A candidate is a PCI display device without a USB segment in its name; that
/// leaves out DisplayLink and platform devices, which no device list ever names. A
/// device that is no candidate but has a connected output is flagged, so that
/// selection can step aside instead of killing that output.
pub fn gpu_snapshot(
    entries: &Vec<DriEntry>,
    conns: &Vec<Connector>,
    lids: &Vec<Option<String>>,
) -> (r: GpuSnapshot)
    requires
        conns@.len() <= u32::MAX,
    ensures
        crate::gpu::card_views(r.cards@) == found(
            in_path_order(dri_views(entries@)),
            connector_views(conns@),
        ).cards,
        r.non_pci_display == found(
            in_path_order(dri_views(entries@)),
            connector_views(conns@),
        ).non_pci_display,
        r.lid_closed == lid_closed_in(lid_views(lids@)),
{
    let ghost all = dri_views(entries@);
    let ghost outs = connector_views(conns@);
    let ghost sorted = in_path_order(all);
    let f = |a: usize, b: usize| -> (c: bool)
        requires
            a < entries@.len(),
            b < entries@.len(),
        ensures
            c == text::text_less(entries@[a as int].path@, entries@[b as int].path@),
        { text::less(entries[a].path.as_str(), entries[b].path.as_str()) };
    let at = order::sort_positions(entries.len(), f, Ghost(by_path(all)));
    let mut cards: Vec<GpuCard> = Vec::new();
    let mut seen: Vec<String> = Vec::new();
    let mut non_pci_display: bool = false;
    let mut i: usize = 0;
    proof {
        assert(sorted.take(0) =~= Seq::<DriView>::empty());
        assert(crate::gpu::card_views(cards@) =~= Seq::<CardView>::empty());
        assert(text::strings(seen@) =~= Seq::<Seq<char>>::empty());
    }
    while i < at.len()
        invariant
            i <= at@.len(),
            at@.len() == entries@.len(),
            conns@.len() <= u32::MAX,
            all == dri_views(entries@),
            outs == connector_views(conns@),
            sorted == in_path_order(all),
            order::positions(at@) == order::order(by_path(all), entries@.len() as int),
            forall|k: int| 0 <= k < at@.len() ==> (#[trigger] at@[k]) < entries@.len(),
            crate::gpu::card_views(cards@) == found(sorted.take(i as int), outs).cards,
            text::strings(seen@) == found(sorted.take(i as int), outs).seen,
            non_pci_display == found(sorted.take(i as int), outs).non_pci_display,
        decreases at@.len() - i,
    {
        let e = &entries[at[i]];
        let ghost old_cards = cards@;
        let ghost old_seen = seen@;
        proof {
            assert(order::positions(at@)[i as int] == at@[i as int] as int);
            assert(sorted[i as int] == e@);
            assert(sorted.take(i + 1).drop_last() =~= sorted.take(i as int));
            assert(sorted.take(i + 1).last() == e@);
        }
        if text::ends_with(e.path.as_str(), "-card") && text::starts_with(e.card.as_str(), "card")
            && !text::string_in(e.card.as_str(), &seen) {
            seen.push(e.card.clone());
            assert(text::strings(seen@) =~= text::strings(old_seen).push(e.card@));
            let (external, edp) = card_connectors(e.card.as_str(), conns);
            if is_candidate(e) {
                let c = GpuCard {
                    path: e.path.clone(),
                    card: e.card.clone(),
                    boot_vga: read_int(text::opt_as_str(&e.boot_vga), 0) as u32,
                    vram: read_int(text::opt_as_str(&e.vram), 0),
                    external,
                    edp,
                };
                assert(c@ =~= e@.as_card(outs));
                cards.push(c);
                assert(crate::gpu::card_views(cards@) =~= crate::gpu::card_views(old_cards).push(
                    c@,
                ));
            } else if external > 0 || edp > 0 {
                non_pci_display = true;
            }
        }
        i += 1;
    }
    assert(sorted.take(sorted.len() as int) =~= sorted);
    GpuSnapshot { cards, non_pci_display, lid_closed: lid_closed_sysfs(lids) }
}

// ---------------------------------------------------------------------- laws

/// Each card of a snapshot is listed once, under a name that starts with `card`.
pub proof fn cards_are_listed_once(entries: Seq<DriView>, conns: Seq<ConnectorView>)
    ensures
        ({
            let f = found(entries, conns);
            &&& f.seen.no_duplicates()
            &&& forall|i: int|
                0 <= i < f.cards.len() ==> f.seen.contains((#[trigger] f.cards[i]).card)
                    && text::has_prefix(f.cards[i].card, "card"@)
            &&& forall|i: int, j: int|
                0 <= i < j < f.cards.len() ==> (#[trigger] f.cards[i]).card != (
                #[trigger] f.cards[j]).card
        }),
    decreases entries.len(),
{
    if entries.len() > 0 {
        let init = found(entries.drop_last(), conns);
        let e = entries.last();
        let f = found(entries, conns);
        cards_are_listed_once(entries.drop_last(), conns);
        if f != init {
            assert(f.seen =~= init.seen.push(e.card));
            assert forall|x: Seq<char>| init.seen.contains(x) implies f.seen.contains(x) by {
                let k = choose|k: int| 0 <= k < init.seen.len() && init.seen[k] == x;
                assert(f.seen[k] == x);
            }
            assert(f.seen[init.seen.len() as int] == e.card);
            assert(forall|k: int|
                0 <= k < init.seen.len() ==> init.seen.contains(#[trigger] init.seen[k]));
            assert forall|i: int| 0 <= i < f.cards.len() implies f.seen.contains(
                (#[trigger] f.cards[i]).card,
            ) && text::has_prefix(f.cards[i].card, "card"@) by {
                if i < init.cards.len() {
                    assert(f.cards[i] == init.cards[i]);
                }
            }
            assert forall|i: int, j: int| 0 <= i < j < f.cards.len() implies (
            #[trigger] f.cards[i]).card != (#[trigger] f.cards[j]).card by {
                assert(f.cards[i] == init.cards[i]);
                assert(init.seen.contains(init.cards[i].card));
                if j < init.cards.len() {
                    assert(f.cards[j] == init.cards[j]);
                }
            }
        }
    }
}

// ---------------------------------------------------------------------- backlight

/// The level in a backlight's file.
pub fn read_level(content: Option<&str>) -> (r: Option<u32>)
    ensures
        number::opt_u32(r) == (match content {
            Some(c) => number::within(number::natural_of(text::trimmed(c@)), 0, u32::MAX as int),
            None => None,
        }),
{
    match content {
        Some(c) => number::parse_u32(text::trim(c)),
        None => None,
    }
}

} // verus!
