//! GPU selection: classification and selection over a snapshot of the topology.
//! The snapshot is built from sysfs elsewhere; everything here is a function of it.
use vstd::prelude::*;

use crate::text;

verus! {

/// One GPU candidate from `/dev/dri/by-path`.
#[derive(Debug, PartialEq, Eq)]
pub struct GpuCard {
    /// Stable by-path entry: the selection key.
    pub path: String,
    /// Resolved `cardN`: emitted, but not stable across boots.
    pub card: String,
    pub boot_vga: u32,
    pub vram: u64,
    /// Connected connectors other than eDP.
    pub external: u32,
    /// Connected eDP connectors.
    pub edp: u32,
}

/// What a card holds.
#[verifier::ext_equal]
pub struct CardView {
    pub path: Seq<char>,
    pub card: Seq<char>,
    pub boot_vga: u32,
    pub vram: u64,
    pub external: u32,
    pub edp: u32,
}

impl View for GpuCard {
    type V = CardView;

    open spec fn view(&self) -> CardView {
        CardView {
            path: self.path@,
            card: self.card@,
            boot_vga: self.boot_vga,
            vram: self.vram,
            external: self.external,
            edp: self.edp,
        }
    }
}

impl Clone for GpuCard {
    fn clone(&self) -> (r: GpuCard)
        ensures
            r == *self,
    {
        GpuCard {
            path: self.path.clone(),
            card: self.card.clone(),
            boot_vga: self.boot_vga,
            vram: self.vram,
            external: self.external,
            edp: self.edp,
        }
    }
}

impl CardView {
    /// Some display is connected to the card.
    pub open spec fn has_display(self) -> bool {
        self.external > 0 || self.edp > 0
    }
}

/// The GPU topology at one moment.
#[derive(Debug)]
pub struct GpuSnapshot {
    pub cards: Vec<GpuCard>,
    /// A DRM device that is no candidate has a connected output.
    pub non_pci_display: bool,
    pub lid_closed: bool,
}

impl Default for GpuSnapshot {
    fn default() -> (r: Self)
        ensures
            r.cards@.len() == 0,
            !r.non_pci_display,
            !r.lid_closed,
    {
        GpuSnapshot { cards: Vec::new(), non_pci_display: false, lid_closed: false }
    }
}

/// What each card of a list holds.
pub open spec fn card_views(s: Seq<GpuCard>) -> Seq<CardView> {
    Seq::new(s.len(), |i: int| s[i]@)
}

/// How the render GPU is picked.
#[derive(Debug, Clone, Copy, PartialEq, Eq, Structural)]
pub enum GpuMode {
    Auto,
    Igpu,
    Dgpu,
    Off,
}

impl GpuMode {
    /// The name of a mode.
    pub open spec fn word(self) -> Seq<char> {
        match self {
            GpuMode::Auto => "auto"@,
            GpuMode::Igpu => "igpu"@,
            GpuMode::Dgpu => "dgpu"@,
            GpuMode::Off => "off"@,
        }
    }

    pub fn as_str(self) -> (r: &'static str)
        ensures
            r@ == self.word(),
    {
        match self {
            GpuMode::Auto => "auto",
            GpuMode::Igpu => "igpu",
            GpuMode::Dgpu => "dgpu",
            GpuMode::Off => "off",
        }
    }
}

/// Where the mode came from; part of the reason of a selection.
#[derive(Debug, Clone, Copy, PartialEq, Eq, Structural)]
pub enum GpuModeSource {
    Override,
    Profile,
    Platform,
    Default,
}

impl GpuModeSource {
    /// The name of a source.
    pub open spec fn word(self) -> Seq<char> {
        match self {
            GpuModeSource::Override => "override"@,
            GpuModeSource::Profile => "profile"@,
            GpuModeSource::Platform => "platform"@,
            GpuModeSource::Default => "default"@,
        }
    }

    pub fn as_str(self) -> (r: &'static str)
        ensures
            r@ == self.word(),
    {
        match self {
            GpuModeSource::Override => "override",
            GpuModeSource::Profile => "profile",
            GpuModeSource::Platform => "platform",
            GpuModeSource::Default => "default",
        }
    }
}

// ---------------------------------------------------------------------- mode

/// The mode that the override file pins, if it pins one.
pub open spec fn override_mode(word: Option<Seq<char>>) -> Option<GpuMode> {
    if word == Some("igpu"@) {
        Some(GpuMode::Igpu)
    } else if word == Some("dgpu"@) {
        Some(GpuMode::Dgpu)
    } else if word == Some("off"@) {
        Some(GpuMode::Off)
    } else {
        None
    }
}

/// The mode that a profile asks for, if it asks for one.
pub open spec fn overlay_mode(word: Option<Seq<char>>) -> Option<GpuMode> {
    if word == Some("igpu"@) {
        Some(GpuMode::Igpu)
    } else if word == Some("dgpu"@) {
        Some(GpuMode::Dgpu)
    } else {
        None
    }
}

/// The mode that a `platform_profile` value implies, if it implies one.
pub open spec fn platform_mode(word: Option<Seq<char>>) -> Option<GpuMode> {
    if word == Some("low-power"@) || word == Some("quiet"@) {
        Some(GpuMode::Igpu)
    } else if word == Some("performance"@) {
        Some(GpuMode::Dgpu)
    } else {
        None
    }
}

/// The mode and where it comes from: the first of override, profile and platform
/// that names one.
pub open spec fn mode_of(
    override_word: Option<Seq<char>>,
    overlay: Option<Seq<char>>,
    platform_word: Option<Seq<char>>,
) -> (GpuMode, GpuModeSource) {
    if override_mode(override_word) is Some {
        (override_mode(override_word)->0, GpuModeSource::Override)
    } else if overlay_mode(overlay) is Some {
        (overlay_mode(overlay)->0, GpuModeSource::Profile)
    } else if platform_mode(platform_word) is Some {
        (platform_mode(platform_word)->0, GpuModeSource::Platform)
    } else {
        (GpuMode::Auto, GpuModeSource::Default)
    }
}

/// The warnings of resolving a mode: an override word that means nothing.
pub open spec fn mode_warnings(override_word: Option<Seq<char>>) -> Seq<Seq<char>> {
    match override_word {
        Some(w) => if override_mode(override_word) is None && w != "auto"@ {
            seq!["ignoring unknown mode "@ + text::debug_of(w)]
        } else {
            seq![]
        },
        None => seq![],
    }
}

/// Resolves the mode: override file, then profile preference, then
/// `platform_profile`, then auto. `auto` and unknown words fall through; an unknown
/// override word also warns.
pub fn resolve_gpu_mode(
    override_word: Option<&str>,
    overlay: Option<&str>,
    platform_word: Option<&str>,
) -> (r: (GpuMode, GpuModeSource, Vec<String>))
    ensures
        (r.0, r.1) == mode_of(
            text::opt_str(override_word),
            text::opt_str(overlay),
            text::opt_str(platform_word),
        ),
        text::strings(r.2@) == mode_warnings(text::opt_str(override_word)),
{
    let mut warnings: Vec<String> = Vec::new();
    assert(text::strings(warnings@) =~= Seq::<Seq<char>>::empty());
    if text::opt_is(override_word, "igpu") {
        return (GpuMode::Igpu, GpuModeSource::Override, warnings);
    }
    if text::opt_is(override_word, "dgpu") {
        return (GpuMode::Dgpu, GpuModeSource::Override, warnings);
    }
    if text::opt_is(override_word, "off") {
        return (GpuMode::Off, GpuModeSource::Override, warnings);
    }
    if let Some(word) = override_word {
        if !text::str_eq(word, "auto") {
            let w = text::quoted("ignoring unknown mode ", word);
            warnings.push(w);
            assert(text::strings(warnings@) =~= seq![w@]);
        }
    }
    if text::opt_is(overlay, "igpu") {
        return (GpuMode::Igpu, GpuModeSource::Profile, warnings);
    }
    if text::opt_is(overlay, "dgpu") {
        return (GpuMode::Dgpu, GpuModeSource::Profile, warnings);
    }
    if text::opt_is(platform_word, "low-power") || text::opt_is(platform_word, "quiet") {
        (GpuMode::Igpu, GpuModeSource::Platform, warnings)
    } else if text::opt_is(platform_word, "performance") {
        (GpuMode::Dgpu, GpuModeSource::Platform, warnings)
    } else {
        (GpuMode::Auto, GpuModeSource::Default, warnings)
    }
}

/// Whether discrete cards must be kept from runtime suspend: only where the mode
/// renders on them.
pub fn dgpu_runtime_pm_pinned(mode: GpuMode) -> (r: bool)
    ensures
        r == (mode == GpuMode::Dgpu),
{
    mode == GpuMode::Dgpu
}

// ------------------------------------------------------------ classification

/// No card has less VRAM than the one at `i`.
pub open spec fn least_vram(cards: Seq<CardView>, i: int) -> bool {
    forall|j: int| 0 <= j < cards.len() ==> cards[i].vram <= (#[trigger] cards[j]).vram
}

/// No card reports itself as the boot VGA device.
pub open spec fn no_boot_vga(cards: Seq<CardView>) -> bool {
    forall|j: int| 0 <= j < cards.len() ==> (#[trigger] cards[j]).boot_vga != 1
}

/// The card at `i` is the integrated one: it is the only boot VGA device and has
/// no more VRAM than any other; or no card is a boot VGA device and it alone has
/// the least VRAM.
pub open spec fn is_integrated(cards: Seq<CardView>, i: int) -> bool {
    &&& 0 <= i < cards.len()
    &&& least_vram(cards, i)
    &&& {
        ||| cards[i].boot_vga == 1 && forall|j: int|
            0 <= j < cards.len() && j != i ==> (#[trigger] cards[j]).boot_vga != 1
        ||| no_boot_vga(cards) && forall|j: int|
            0 <= j < cards.len() && j != i ==> cards[i].vram < (#[trigger] cards[j]).vram
    }
}

/// There is at most one integrated card.
pub proof fn integrated_is_unique(cards: Seq<CardView>, i: int, j: int)
    requires
        is_integrated(cards, i),
        is_integrated(cards, j),
    ensures
        i == j,
{
    if i != j {
        assert(cards[i].boot_vga == 1 || no_boot_vga(cards));
        assert(cards[j].vram <= cards[i].vram && cards[i].vram <= cards[j].vram);
    }
}

/// Finds the integrated card: the boot VGA device and the one with the least VRAM
/// must agree. Cards that report no VRAM read as 0, which agrees trivially. `None`
/// where the signals disagree or nothing tells two cards apart.
pub fn integrated_card(cards: &[GpuCard]) -> (r: Option<usize>)
    ensures
        match r {
            Some(i) => is_integrated(card_views(cards@), i as int),
            None => forall|i: int| !is_integrated(card_views(cards@), i),
        },
{
    let ghost all = card_views(cards@);
    if cards.len() == 0 {
        return None;
    }
    let mut low: usize = 0;
    let mut low_ties: bool = false;
    let mut vga: usize = 0;
    let mut vga_seen: usize = 0;
    let mut i: usize = 0;
    while i < cards.len()
        invariant
            i <= cards@.len(),
            all == card_views(cards@),
            cards@.len() > 0,
            low < cards@.len(),
            vga < cards@.len(),
            vga_seen <= 2,
            i == 0 ==> !low_ties && low == 0,
            i > 0 ==> low < i,
            forall|j: int| 0 <= j < i ==> all[low as int].vram <= (#[trigger] all[j]).vram,
            low_ties ==> exists|j: int|
                0 <= j < i && j != low && (#[trigger] all[j]).vram == all[low as int].vram,
            !low_ties ==> forall|j: int|
                0 <= j < i && j != low ==> all[low as int].vram < (#[trigger] all[j]).vram,
            vga_seen == 0 ==> forall|j: int| 0 <= j < i ==> (#[trigger] all[j]).boot_vga != 1,
            vga_seen >= 1 ==> vga < i && all[vga as int].boot_vga == 1,
            vga_seen == 1 ==> forall|j: int|
                0 <= j < i && j != vga ==> (#[trigger] all[j]).boot_vga != 1,
            vga_seen == 2 ==> exists|j: int|
                0 <= j < i && j != vga && (#[trigger] all[j]).boot_vga == 1,
        decreases cards@.len() - i,
    {
        assert(all[i as int] == cards@[i as int]@);
        assert(all[low as int] == cards@[low as int]@);
        if i > 0 {
            if cards[i].vram < cards[low].vram {
                low = i;
                low_ties = false;
            } else if cards[i].vram == cards[low].vram {
                low_ties = true;
                assert(all[i as int].vram == all[low as int].vram);
            }
        }
        if cards[i].boot_vga == 1 {
            if vga_seen == 0 {
                vga = i;
                vga_seen = 1;
            } else {
                if vga_seen == 1 {
                    assert(all[i as int].boot_vga == 1);
                }
                vga_seen = 2;
            }
        }
        i += 1;
    }
    if vga_seen == 1 {
        assert(all[vga as int] == cards@[vga as int]@);
        assert(all[low as int] == cards@[low as int]@);
        if cards[vga].vram == cards[low].vram {
            assert(is_integrated(all, vga as int));
            return Some(vga);
        }
        assert forall|k: int| !is_integrated(all, k) by {
            if is_integrated(all, k) {
                assert(k == vga);
                assert(all[k].vram <= all[low as int].vram);
            }
        }
        return None;
    }
    if vga_seen == 0 && !low_ties {
        assert(is_integrated(all, low as int));
        return Some(low);
    }
    assert forall|k: int| !is_integrated(all, k) by {
        if is_integrated(all, k) {
            if vga_seen == 2 {
                let j = choose|j: int|
                    0 <= j < cards@.len() && j != vga && (#[trigger] all[j]).boot_vga == 1;
                assert(all[j].boot_vga == 1 && all[vga as int].boot_vga == 1);
            } else {
                assert(low_ties);
                let j = choose|j: int|
                    0 <= j < cards@.len() && j != low && (#[trigger] all[j]).vram
                        == all[low as int].vram;
                assert(all[k].boot_vga != 1);
                assert(all[k].vram <= all[low as int].vram);
                assert(all[low as int].vram <= all[k].vram);
                if k != low {
                    assert(all[k].vram < all[low as int].vram);
                } else {
                    assert(all[k].vram < all[j].vram);
                }
            }
        }
    }
    None
}

// ------------------------------------------------------------------- ranking

/// The card at `a` is wanted more than the one at `b`: more external displays,
/// then more VRAM, then the smaller path.
pub open spec fn wanted_before(cards: Seq<CardView>, a: int, b: int) -> bool {
    ||| cards[a].external > cards[b].external
    ||| cards[a].external == cards[b].external && cards[a].vram > cards[b].vram
    ||| cards[a].external == cards[b].external && cards[a].vram == cards[b].vram
        && text::text_less(cards[a].path, cards[b].path)
}

/// `x` put into the ranking `s`, behind everything it is not wanted before.
pub open spec fn rank_in(cards: Seq<CardView>, s: Seq<int>, x: int) -> Seq<int>
    decreases s.len(),
{
    if s.len() > 0 && wanted_before(cards, x, s.last()) {
        rank_in(cards, s.drop_last(), x).push(s.last())
    } else {
        s.push(x)
    }
}

/// The positions below `n` other than `skip`, most wanted first; of equally
/// wanted ones the earlier comes first.
pub open spec fn ranking(cards: Seq<CardView>, skip: int, n: int) -> Seq<int>
    decreases n,
{
    if n <= 0 {
        seq![]
    } else if n - 1 == skip {
        ranking(cards, skip, n - 1)
    } else {
        rank_in(cards, ranking(cards, skip, n - 1), n - 1)
    }
}

/// The positions of the discrete cards, most wanted first.
pub open spec fn discretes(cards: Seq<CardView>, integrated: int) -> Seq<int> {
    ranking(cards, integrated, cards.len() as int)
}

proof fn lemma_rank_in(cards: Seq<CardView>, s: Seq<int>, x: int, pos: int)
    requires
        0 <= pos <= s.len(),
        forall|j: int| pos <= j < s.len() ==> wanted_before(cards, x, #[trigger] s[j]),
        pos == 0 || !wanted_before(cards, x, s[pos - 1]),
    ensures
        rank_in(cards, s, x) == s.insert(pos, x),
    decreases s.len(),
{
    if s.len() > 0 && wanted_before(cards, x, s.last()) {
        if pos == s.len() {
            assert(s[pos - 1] == s.last());
        }
        let init = s.drop_last();
        assert forall|j: int| pos <= j < init.len() implies wanted_before(
            cards,
            x,
            #[trigger] init[j],
        ) by {
            assert(init[j] == s[j]);
        }
        lemma_rank_in(cards, init, x, pos);
        assert(s.insert(pos, x) =~= init.insert(pos, x).push(s.last()));
    } else {
        if pos < s.len() {
            assert(s[s.len() - 1] == s.last());
        }
        assert(s.insert(pos, x) =~= s.push(x));
    }
}

proof fn lemma_rank_in_holds(cards: Seq<CardView>, s: Seq<int>, x: int)
    ensures
        rank_in(cards, s, x).len() == s.len() + 1,
        forall|y: int| #[trigger] rank_in(cards, s, x).contains(y) <==> s.contains(y) || y == x,
        s.no_duplicates() && !s.contains(x) ==> rank_in(cards, s, x).no_duplicates(),
    decreases s.len(),
{
    let r = rank_in(cards, s, x);
    if s.len() > 0 && wanted_before(cards, x, s.last()) {
        let init = s.drop_last();
        lemma_rank_in_holds(cards, init, x);
        let ri = rank_in(cards, init, x);
        assert forall|y: int| #[trigger] r.contains(y) <==> s.contains(y) || y == x by {
            assert(s =~= init.push(s.last()));
            if r.contains(y) {
                let k = choose|k: int| 0 <= k < r.len() && r[k] == y;
                if k < ri.len() {
                    assert(ri[k] == y);
                    assert(ri.contains(y));
                    if init.contains(y) {
                        let m = choose|m: int| 0 <= m < init.len() && init[m] == y;
                        assert(s[m] == y);
                    }
                } else {
                    assert(s[s.len() - 1] == y);
                }
            }
            if s.contains(y) {
                let m = choose|m: int| 0 <= m < s.len() && s[m] == y;
                if m < init.len() {
                    assert(init[m] == y);
                    assert(ri.contains(y));
                    let k = choose|k: int| 0 <= k < ri.len() && ri[k] == y;
                    assert(r[k] == y);
                } else {
                    assert(r[r.len() - 1] == y);
                }
            }
            if y == x {
                assert(ri.contains(x));
                let k = choose|k: int| 0 <= k < ri.len() && ri[k] == x;
                assert(r[k] == x);
            }
        }
        if s.no_duplicates() && !s.contains(x) {
            assert(!init.contains(x)) by {
                if init.contains(x) {
                    let m = choose|m: int| 0 <= m < init.len() && init[m] == x;
                    assert(s[m] == x);
                }
            }
            assert(!ri.contains(s.last())) by {
                if init.contains(s.last()) {
                    let m = choose|m: int| 0 <= m < init.len() && init[m] == s.last();
                    assert(s[m] == s[s.len() - 1]);
                }
                assert(s.contains(s[s.len() - 1]));
            }
            assert forall|a: int, b: int| 0 <= a < r.len() && 0 <= b < r.len() && a != b implies r[a]
                != r[b] by {
                if a < ri.len() {
                    assert(ri.contains(ri[a]));
                }
                if b < ri.len() {
                    assert(ri.contains(ri[b]));
                }
            }
        }
    } else {
        assert forall|y: int| #[trigger] r.contains(y) <==> s.contains(y) || y == x by {
            if r.contains(y) {
                let k = choose|k: int| 0 <= k < r.len() && r[k] == y;
                if k < s.len() {
                    assert(s[k] == y);
                }
            }
            if s.contains(y) {
                let k = choose|k: int| 0 <= k < s.len() && s[k] == y;
                assert(r[k] == y);
            }
            if y == x {
                assert(r[s.len() as int] == x);
            }
        }
    }
}

/// The ranking holds every position but the skipped one, each once.
pub proof fn ranking_is_complete(cards: Seq<CardView>, skip: int, n: int)
    requires
        0 <= n,
    ensures
        forall|y: int|
            #[trigger] ranking(cards, skip, n).contains(y) <==> 0 <= y < n && y != skip,
        ranking(cards, skip, n).no_duplicates(),
        ranking(cards, skip, n).len() == (if 0 <= skip < n {
            n - 1
        } else {
            n
        }),
    decreases n,
{
    if n > 0 {
        ranking_is_complete(cards, skip, n - 1);
        if n - 1 != skip {
            lemma_rank_in_holds(cards, ranking(cards, skip, n - 1), n - 1);
        }
    }
}

/// Being wanted more is transitive, also through ties.
proof fn lemma_wanted(cards: Seq<CardView>, a: int, b: int, c: int)
    ensures
        !wanted_before(cards, a, a),
        wanted_before(cards, a, b) ==> !wanted_before(cards, b, a),
        !wanted_before(cards, b, a) && !wanted_before(cards, c, b) ==> !wanted_before(cards, c, a),
        wanted_before(cards, a, b) && !wanted_before(cards, c, b) ==> wanted_before(cards, a, c),
{
    text::lemma_text_irreflexive(cards[a].path);
    text::lemma_text_total(cards[a].path, cards[b].path);
    text::lemma_text_total(cards[b].path, cards[c].path);
    text::lemma_text_total(cards[a].path, cards[c].path);
    if text::text_less(cards[c].path, cards[a].path) && text::text_less(
        cards[a].path,
        cards[b].path,
    ) {
        text::lemma_text_transitive(cards[c].path, cards[a].path, cards[b].path);
    }
    if text::text_less(cards[a].path, cards[b].path) && text::text_less(
        cards[b].path,
        cards[c].path,
    ) {
        text::lemma_text_transitive(cards[a].path, cards[b].path, cards[c].path);
    }
}

/// Nothing in a ranking is wanted before something that stands ahead of it.
pub open spec fn is_ranked(cards: Seq<CardView>, s: Seq<int>) -> bool {
    forall|a: int, b: int|
        0 <= a < b < s.len() ==> !wanted_before(cards, #[trigger] s[b], #[trigger] s[a])
}

/// The ranking is in order.
pub proof fn ranking_is_sorted(cards: Seq<CardView>, skip: int, n: int)
    ensures
        is_ranked(cards, ranking(cards, skip, n)),
    decreases n,
{
    if n > 0 {
        ranking_is_sorted(cards, skip, n - 1);
        if n - 1 != skip {
            lemma_rank_in_sorted(cards, ranking(cards, skip, n - 1), n - 1);
        }
    }
}

proof fn lemma_rank_in_sorted(cards: Seq<CardView>, s: Seq<int>, x: int)
    requires
        is_ranked(cards, s),
    ensures
        is_ranked(cards, rank_in(cards, s, x)),
    decreases s.len(),
{
    let r = rank_in(cards, s, x);
    if s.len() > 0 && wanted_before(cards, x, s.last()) {
        let init = s.drop_last();
        assert forall|a: int, b: int| 0 <= a < b < init.len() implies !wanted_before(
            cards,
            #[trigger] init[b],
            #[trigger] init[a],
        ) by {
            assert(init[a] == s[a] && init[b] == s[b]);
        }
        lemma_rank_in_sorted(cards, init, x);
        lemma_rank_in_holds(cards, init, x);
        let ri = rank_in(cards, init, x);
        assert forall|a: int, b: int| 0 <= a < b < r.len() implies !wanted_before(
            cards,
            #[trigger] r[b],
            #[trigger] r[a],
        ) by {
            if b < ri.len() {
                assert(r[a] == ri[a] && r[b] == ri[b]);
            } else {
                assert(r[b] == s.last());
                assert(ri.contains(ri[a]));
                if ri[a] == x {
                    lemma_wanted(cards, x, s.last(), x);
                } else {
                    assert(init.contains(ri[a]));
                    let m = choose|m: int| 0 <= m < init.len() && init[m] == ri[a];
                    assert(s[m] == ri[a]);
                    assert(s[s.len() - 1] == s.last());
                }
            }
        }
    } else {
        assert forall|a: int, b: int| 0 <= a < b < r.len() implies !wanted_before(
            cards,
            #[trigger] r[b],
            #[trigger] r[a],
        ) by {
            if b < s.len() {
                assert(r[a] == s[a] && r[b] == s[b]);
            } else {
                assert(r[a] == s[a] && r[b] == x);
                if a < s.len() - 1 {
                    assert(!wanted_before(cards, s[s.len() - 1], s[a]));
                    lemma_wanted(cards, s[a], s.last(), x);
                }
            }
        }
    }
}

/// The positions that a list of machine integers holds.
pub open spec fn positions(s: Seq<usize>) -> Seq<int> {
    Seq::new(s.len(), |i: int| s[i] as int)
}

/// Whether the card at `a` is wanted before the one at `b`.
fn is_wanted_before(cards: &Vec<GpuCard>, a: usize, b: usize) -> (r: bool)
    requires
        a < cards@.len(),
        b < cards@.len(),
    ensures
        r == wanted_before(card_views(cards@), a as int, b as int),
{
    assert(card_views(cards@)[a as int] == cards@[a as int]@);
    assert(card_views(cards@)[b as int] == cards@[b as int]@);
    if cards[a].external != cards[b].external {
        cards[a].external > cards[b].external
    } else if cards[a].vram != cards[b].vram {
        cards[a].vram > cards[b].vram
    } else {
        text::less(cards[a].path.as_str(), cards[b].path.as_str())
    }
}

/// Ranks the cards other than the integrated one.
fn rank_discretes(cards: &Vec<GpuCard>, integrated: usize) -> (r: Vec<usize>)
    requires
        integrated < cards@.len(),
    ensures
        positions(r@) == discretes(card_views(cards@), integrated as int),
        forall|i: int| 0 <= i < r@.len() ==> (#[trigger] r@[i]) < cards@.len(),
{
    let ghost all = card_views(cards@);
    let mut out: Vec<usize> = Vec::new();
    let mut n: usize = 0;
    assert(positions(out@) =~= ranking(all, integrated as int, 0));
    while n < cards.len()
        invariant
            n <= cards@.len(),
            integrated < cards@.len(),
            all == card_views(cards@),
            positions(out@) == ranking(all, integrated as int, n as int),
            forall|i: int| 0 <= i < out@.len() ==> (#[trigger] out@[i]) < cards@.len(),
        decreases cards@.len() - n,
    {
        if n != integrated {
            let mut pos: usize = out.len();
            while pos > 0 && is_wanted_before(cards, n, out[pos - 1])
                invariant
                    pos <= out@.len(),
                    n < cards@.len(),
                    all == card_views(cards@),
                    forall|i: int| 0 <= i < out@.len() ==> (#[trigger] out@[i]) < cards@.len(),
                    forall|j: int|
                        pos <= j < out@.len() ==> wanted_before(
                            all,
                            n as int,
                            #[trigger] positions(out@)[j],
                        ),
                decreases pos,
            {
                pos -= 1;
            }
            let ghost before = positions(out@);
            proof {
                lemma_rank_in(all, before, n as int, pos as int);
            }
            out.insert(pos, n);
            assert(positions(out@) =~= before.insert(pos as int, n as int));
        }
        n += 1;
    }
    out
}

// ----------------------------------------------------------------- selection

/// The device node of a card, without the colons that by-path names have: the
/// device list of the compositor is separated by colons.
pub open spec fn devnode_of(c: CardView) -> Seq<char> {
    "/dev/dri/"@ + c.card
}

/// The device node of a card. Cards are selected by their stable path but emitted
/// by the resolved node, whose name holds no colon.
pub fn devnode(card: &GpuCard) -> (r: String)
    ensures
        r@ == devnode_of(card@),
{
    text::concat2("/dev/dri/", card.card.as_str())
}

/// The PCI address in a by-path entry: its last component without the `-card` suffix.
pub open spec fn key_of(path: Seq<char>) -> Seq<char> {
    let name = text::after_last(path, '/');
    if text::has_suffix(name, "-card"@) {
        name.take(name.len() - "-card"@.len())
    } else {
        name
    }
}

/// The PCI address in a by-path entry, the key under which a card is reported.
pub fn pci_key(path: &str) -> (r: &str)
    ensures
        r@ == key_of(path@),
{
    let name = text::last_piece(path, '/');
    match text::strip_suffix(name, "-card") {
        Some(key) => key,
        None => name,
    }
}

/// Those of `s` other than `primary` that have a display connected.
pub open spec fn shown(cards: Seq<CardView>, s: Seq<int>, primary: int) -> Seq<int>
    decreases s.len(),
{
    if s.len() == 0 {
        seq![]
    } else if s.last() != primary && cards[s.last()].has_display() {
        shown(cards, s.drop_last(), primary).push(s.last())
    } else {
        shown(cards, s.drop_last(), primary)
    }
}

/// The listed cards: the primary, the integrated one, and every other discrete
/// card with a display. Idle discrete cards are left out, so they can power down.
pub open spec fn listed(cards: Seq<CardView>, integrated: int, primary: int) -> Seq<int> {
    seq![primary] + (if integrated != primary {
        seq![integrated]
    } else {
        seq![]
    }) + shown(cards, discretes(cards, integrated), primary)
}

/// Something can light up on the listed cards: an external display, or the
/// internal panel while the lid is open.
pub open spec fn usable(cards: Seq<CardView>, devices: Seq<int>, lid_closed: bool) -> bool {
    ||| exists|k: int| 0 <= k < devices.len() && cards[#[trigger] devices[k]].external > 0
    ||| !lid_closed && exists|k: int|
        0 <= k < devices.len() && cards[#[trigger] devices[k]].edp > 0
}

/// The card that renders, and why.
pub open spec fn primary_of(
    cards: Seq<CardView>,
    integrated: int,
    mode: GpuMode,
    source: GpuModeSource,
) -> (int, Seq<char>) {
    let best = discretes(cards, integrated)[0];
    match mode {
        GpuMode::Auto => if cards[best].has_display() {
            (best, "dgpu-has-display"@)
        } else {
            (integrated, "dgpu-idle-omitted"@)
        },
        GpuMode::Dgpu => (best, source.word() + "-dgpu"@),
        _ => (integrated, source.word() + "-igpu"@),
    }
}

/// The device nodes of the cards at given positions.
pub open spec fn nodes(cards: Seq<CardView>, devices: Seq<int>) -> Seq<Seq<char>> {
    Seq::new(devices.len(), |k: int| devnode_of(cards[devices[k]]))
}

/// The outcome of a selection: the device list, primary first, and the reason.
/// Without a list the compositor is left to its own defaults.
pub open spec fn selection_of(
    cards: Seq<CardView>,
    non_pci_display: bool,
    lid_closed: bool,
    mode: GpuMode,
    source: GpuModeSource,
) -> (Option<Seq<Seq<char>>>, Seq<char>) {
    if mode == GpuMode::Off {
        (None, "override-off"@)
    } else if cards.len() < 2 {
        (None, "no-multi-gpu"@)
    } else if non_pci_display {
        (None, "non-pci-display-present"@)
    } else if !exists|i: int| is_integrated(cards, i) {
        (None, "ambiguous-integrated"@)
    } else if lid_closed && !exists|j: int|
        0 <= j < cards.len() && (#[trigger] cards[j]).external > 0 {
        (None, "bailed-transient"@)
    } else {
        let integrated = choose|i: int| is_integrated(cards, i);
        let (primary, reason) = primary_of(cards, integrated, mode, source);
        let devices = listed(cards, integrated, primary);
        if usable(cards, devices, lid_closed) {
            (Some(nodes(cards, devices)), reason)
        } else {
            (None, "bailed-transient"@)
        }
    }
}

/// What the outcome of a selection holds.
pub open spec fn selection_view(r: (Option<Vec<String>>, String)) -> (
    Option<Seq<Seq<char>>>,
    Seq<char>,
) {
    (
        match r.0 {
            Some(v) => Some(text::strings(v@)),
            None => None,
        },
        r.1@,
    )
}

/// Whether any card of the list has an external display.
fn any_external(cards: &Vec<GpuCard>) -> (r: bool)
    ensures
        r == exists|j: int|
            0 <= j < cards@.len() && (#[trigger] card_views(cards@)[j]).external > 0,
{
    let mut i: usize = 0;
    while i < cards.len()
        invariant
            i <= cards@.len(),
            forall|j: int| 0 <= j < i ==> (#[trigger] card_views(cards@)[j]).external == 0,
        decreases cards@.len() - i,
    {
        if cards[i].external > 0 {
            assert(card_views(cards@)[i as int].external > 0);
            return true;
        }
        i += 1;
    }
    false
}

/// Whether something can light up on the listed cards.
fn is_usable(cards: &Vec<GpuCard>, devices: &Vec<usize>, lid_closed: bool) -> (r: bool)
    requires
        forall|i: int| 0 <= i < devices@.len() ==> (#[trigger] devices@[i]) < cards@.len(),
    ensures
        r == usable(card_views(cards@), positions(devices@), lid_closed),
{
    let ghost all = card_views(cards@);
    let ghost at = positions(devices@);
    let mut i: usize = 0;
    while i < devices.len()
        invariant
            i <= devices@.len(),
            all == card_views(cards@),
            at == positions(devices@),
            forall|k: int| 0 <= k < devices@.len() ==> (#[trigger] devices@[k]) < cards@.len(),
            forall|k: int|
                0 <= k < i ==> all[#[trigger] at[k]].external == 0 && (lid_closed || all[at[k]].edp
                    == 0),
        decreases devices@.len() - i,
    {
        let d: usize = devices[i];
        assert(at[i as int] == d as int);
        assert(all[d as int] == cards@[d as int]@);
        if cards[d].external > 0 || (!lid_closed && cards[d].edp > 0) {
            return true;
        }
        i += 1;
    }
    false
}

/// Lists the cards to open.
fn list_cards(
    cards: &Vec<GpuCard>,
    ranked: &Vec<usize>,
    integrated: usize,
    primary: usize,
) -> (r: Vec<usize>)
    requires
        integrated < cards@.len(),
        primary < cards@.len(),
        positions(ranked@) == discretes(card_views(cards@), integrated as int),
        forall|i: int| 0 <= i < ranked@.len() ==> (#[trigger] ranked@[i]) < cards@.len(),
    ensures
        positions(r@) == listed(card_views(cards@), integrated as int, primary as int),
        forall|i: int| 0 <= i < r@.len() ==> (#[trigger] r@[i]) < cards@.len(),
{
    let ghost all = card_views(cards@);
    let ghost order = positions(ranked@);
    let mut out: Vec<usize> = vec![primary];
    if integrated != primary {
        out.push(integrated);
    }
    let ghost head = positions(out@);
    proof {
        assert(head =~= seq![primary as int] + (if integrated != primary {
            seq![integrated as int]
        } else {
            seq![]
        }));
        assert(order.take(0) =~= Seq::<int>::empty());
        assert(positions(out@) =~= head + shown(all, order.take(0), primary as int));
    }
    let mut i: usize = 0;
    while i < ranked.len()
        invariant
            i <= ranked@.len(),
            all == card_views(cards@),
            order == positions(ranked@),
            primary < cards@.len(),
            forall|k: int| 0 <= k < ranked@.len() ==> (#[trigger] ranked@[k]) < cards@.len(),
            forall|k: int| 0 <= k < out@.len() ==> (#[trigger] out@[k]) < cards@.len(),
            positions(out@) == head + shown(all, order.take(i as int), primary as int),
        decreases ranked@.len() - i,
    {
        let d: usize = ranked[i];
        let ghost before = out@;
        proof {
            let next = order.take(i + 1);
            assert(next.drop_last() =~= order.take(i as int));
            assert(next.last() == d as int);
            assert(all[d as int] == cards@[d as int]@);
        }
        if d != primary && (cards[d].external > 0 || cards[d].edp > 0) {
            out.push(d);
            proof {
                assert(positions(out@) =~= positions(before).push(d as int));
                assert((head + shown(all, order.take(i as int), primary as int)).push(d as int)
                    =~= head + shown(all, order.take(i as int), primary as int).push(d as int));
            }
        }
        i += 1;
    }
    assert(order.take(order.len() as int) =~= order);
    out
}

/// The device nodes of the cards at given positions.
fn device_nodes(cards: &Vec<GpuCard>, devices: &Vec<usize>) -> (r: Vec<String>)
    requires
        forall|i: int| 0 <= i < devices@.len() ==> (#[trigger] devices@[i]) < cards@.len(),
    ensures
        text::strings(r@) == nodes(card_views(cards@), positions(devices@)),
{
    let mut out: Vec<String> = Vec::new();
    let mut i: usize = 0;
    while i < devices.len()
        invariant
            i <= devices@.len(),
            forall|k: int| 0 <= k < devices@.len() ==> (#[trigger] devices@[k]) < cards@.len(),
            out@.len() == i,
            forall|k: int|
                0 <= k < i ==> (#[trigger] out@[k])@ == devnode_of(cards@[devices@[k] as int]@),
        decreases devices@.len() - i,
    {
        out.push(devnode(&cards[devices[i]]));
        i += 1;
    }
    assert(text::strings(out@) =~= nodes(card_views(cards@), positions(devices@)));
    out
}

/// Selects the cards to open, primary first, with the reason. `None` means
/// unmanaged: nothing is printed and the compositor falls back to its defaults.
///
/// A closed lid without any external display is a docked cold boot whose links are
/// still down: leaving the dock's card out then would leave the session without
/// any output, so the caller settles and tries again.
pub fn gpu_desired(snap: &GpuSnapshot, mode: GpuMode, source: GpuModeSource) -> (r: (
    Option<Vec<String>>,
    String,
))
    ensures
        selection_view(r) == selection_of(
            card_views(snap.cards@),
            snap.non_pci_display,
            snap.lid_closed,
            mode,
            source,
        ),
{
    let ghost all = card_views(snap.cards@);
    if mode == GpuMode::Off {
        return (None, String::from_str("override-off"));
    }
    if snap.cards.len() < 2 {
        return (None, String::from_str("no-multi-gpu"));
    }
    if snap.non_pci_display {
        return (None, String::from_str("non-pci-display-present"));
    }
    let integrated: usize = match integrated_card(snap.cards.as_slice()) {
        Some(i) => i,
        None => {
            return (None, String::from_str("ambiguous-integrated"));
        },
    };
    proof {
        assert(is_integrated(all, integrated as int));
        let chosen = choose|i: int| is_integrated(all, i);
        integrated_is_unique(all, integrated as int, chosen);
    }
    if snap.lid_closed && !any_external(&snap.cards) {
        return (None, String::from_str("bailed-transient"));
    }
    let ranked = rank_discretes(&snap.cards, integrated);
    proof {
        ranking_is_complete(all, integrated as int, all.len() as int);
        assert(positions(ranked@).len() == ranked@.len());
    }
    let best: usize = ranked[0];
    assert(positions(ranked@)[0] == best as int);
    assert(all[best as int] == snap.cards@[best as int]@);
    let (primary, reason) = match mode {
        GpuMode::Auto => if snap.cards[best].external > 0 || snap.cards[best].edp > 0 {
            (best, String::from_str("dgpu-has-display"))
        } else {
            (integrated, String::from_str("dgpu-idle-omitted"))
        },
        GpuMode::Dgpu => (best, text::concat2(source.as_str(), "-dgpu")),
        _ => (integrated, text::concat2(source.as_str(), "-igpu")),
    };
    let devices = list_cards(&snap.cards, &ranked, integrated, primary);
    if !is_usable(&snap.cards, &devices, snap.lid_closed) {
        return (None, String::from_str("bailed-transient"));
    }
    (Some(device_nodes(&snap.cards, &devices)), reason)
}

// ---------------------------------------------------------------------- laws

proof fn lemma_shown(cards: Seq<CardView>, s: Seq<int>, primary: int)
    ensures
        forall|y: int|
            #[trigger] shown(cards, s, primary).contains(y) <==> s.contains(y) && y != primary
                && cards[y].has_display(),
        s.no_duplicates() ==> shown(cards, s, primary).no_duplicates(),
    decreases s.len(),
{
    let r = shown(cards, s, primary);
    if s.len() > 0 {
        let init = s.drop_last();
        let ri = shown(cards, init, primary);
        lemma_shown(cards, init, primary);
        assert forall|y: int| s.contains(y) <==> init.contains(y) || y == s.last() by {
            if s.contains(y) {
                let k = choose|k: int| 0 <= k < s.len() && s[k] == y;
                if k < init.len() {
                    assert(init[k] == y);
                }
            }
            if init.contains(y) {
                let k = choose|k: int| 0 <= k < init.len() && init[k] == y;
                assert(s[k] == y);
            }
            assert(s[s.len() - 1] == s.last());
        }
        if s.last() != primary && cards[s.last()].has_display() {
            assert forall|y: int| #[trigger] r.contains(y) <==> ri.contains(y) || y == s.last() by {
                if r.contains(y) {
                    let k = choose|k: int| 0 <= k < r.len() && r[k] == y;
                    if k < ri.len() {
                        assert(ri[k] == y);
                    }
                }
                if ri.contains(y) {
                    let k = choose|k: int| 0 <= k < ri.len() && ri[k] == y;
                    assert(r[k] == y);
                }
                assert(r[r.len() - 1] == s.last());
            }
            if s.no_duplicates() {
                assert(!init.contains(s.last())) by {
                    if init.contains(s.last()) {
                        let k = choose|k: int| 0 <= k < init.len() && init[k] == s.last();
                        assert(s[k] == s[s.len() - 1]);
                    }
                }
                assert(!ri.contains(s.last()));
                assert forall|a: int, b: int|
                    0 <= a < r.len() && 0 <= b < r.len() && a != b implies r[a] != r[b] by {
                    if a < ri.len() {
                        assert(ri.contains(ri[a]));
                    }
                    if b < ri.len() {
                        assert(ri.contains(ri[b]));
                    }
                }
            }
        }
    }
}

/// The listed cards: the primary comes first, the integrated card is always among
/// them, no card is listed twice, and beyond those two exactly the discrete cards
/// with a display are listed.
pub proof fn listed_cards(cards: Seq<CardView>, integrated: int, primary: int)
    requires
        0 <= integrated < cards.len(),
        0 <= primary < cards.len(),
    ensures
        listed(cards, integrated, primary).len() > 0,
        listed(cards, integrated, primary)[0] == primary,
        listed(cards, integrated, primary).contains(integrated),
        listed(cards, integrated, primary).no_duplicates(),
        forall|y: int|
            #[trigger] listed(cards, integrated, primary).contains(y) <==> y == primary || y
                == integrated || (0 <= y < cards.len() && cards[y].has_display() && y
                != integrated),
{
    let order = discretes(cards, integrated);
    let tail = shown(cards, order, primary);
    let head = seq![primary] + (if integrated != primary {
        seq![integrated]
    } else {
        seq![]
    });
    let all = listed(cards, integrated, primary);
    ranking_is_complete(cards, integrated, cards.len() as int);
    lemma_shown(cards, order, primary);
    assert(all =~= head + tail);
    assert forall|y: int|
        #[trigger] all.contains(y) <==> y == primary || y == integrated || tail.contains(y) by {
        if all.contains(y) {
            let k = choose|k: int| 0 <= k < all.len() && all[k] == y;
            if k >= head.len() {
                assert(tail[k - head.len()] == y);
            }
        }
        if tail.contains(y) {
            let k = choose|k: int| 0 <= k < tail.len() && tail[k] == y;
            assert(all[head.len() + k] == y);
        }
        assert(all[0] == primary);
        if integrated != primary {
            assert(all[1] == integrated);
        }
    }
    assert forall|a: int, b: int| 0 <= a < all.len() && 0 <= b < all.len() && a != b implies all[a]
        != all[b] by {
        if a >= head.len() {
            assert(tail.contains(tail[a - head.len()]));
            assert(order.contains(all[a]));
        }
        if b >= head.len() {
            assert(tail.contains(tail[b - head.len()]));
            assert(order.contains(all[b]));
        }
    }
}

/// A list that is emitted can light something up, names the primary card first,
/// and always holds the integrated card.
pub proof fn selections_are_usable(
    cards: Seq<CardView>,
    non_pci_display: bool,
    lid_closed: bool,
    mode: GpuMode,
    source: GpuModeSource,
)
    ensures
        selection_of(cards, non_pci_display, lid_closed, mode, source).0 is Some ==> exists|
            devices: Seq<int>,
            integrated: int,
        |
            {
                &&& is_integrated(cards, integrated)
                &&& devices.contains(integrated)
                &&& devices.no_duplicates()
                &&& devices.len() > 0
                &&& devices[0] == primary_of(cards, integrated, mode, source).0
                &&& #[trigger] usable(cards, devices, lid_closed)
                &&& selection_of(cards, non_pci_display, lid_closed, mode, source).0 == Some(
                    #[trigger] nodes(cards, devices),
                )
                &&& #[trigger] is_integrated(cards, integrated)
            },
{
    if selection_of(cards, non_pci_display, lid_closed, mode, source).0 is Some {
        let integrated = choose|i: int| is_integrated(cards, i);
        let (primary, reason) = primary_of(cards, integrated, mode, source);
        let devices = listed(cards, integrated, primary);
        ranking_is_complete(cards, integrated, cards.len() as int);
        let order = discretes(cards, integrated);
        assert(order.contains(order[0]));
        listed_cards(cards, integrated, primary);
        assert(usable(cards, devices, lid_closed));
        assert(selection_of(cards, non_pci_display, lid_closed, mode, source).0 == Some(
            nodes(cards, devices),
        ));
    }
}

/// An override of `off`, a single card, a display on some other device, and an
/// ambiguous topology each leave the session unmanaged.
pub proof fn unmanaged_cases(
    cards: Seq<CardView>,
    non_pci_display: bool,
    lid_closed: bool,
    mode: GpuMode,
    source: GpuModeSource,
)
    requires
        mode == GpuMode::Off || cards.len() < 2 || non_pci_display || !exists|i: int|
            is_integrated(cards, i),
    ensures
        selection_of(cards, non_pci_display, lid_closed, mode, source).0 is None,
{
}

/// A closed lid without an external display never yields a list.
pub proof fn closed_lid_without_display_bails(
    cards: Seq<CardView>,
    non_pci_display: bool,
    mode: GpuMode,
    source: GpuModeSource,
)
    requires
        forall|j: int| 0 <= j < cards.len() ==> (#[trigger] cards[j]).external == 0,
    ensures
        selection_of(cards, non_pci_display, true, mode, source).0 is None,
{
}

/// In `dgpu` mode the primary is a discrete card, and no discrete card is wanted
/// before it.
pub proof fn dgpu_mode_renders_on_the_best(
    cards: Seq<CardView>,
    integrated: int,
    source: GpuModeSource,
    j: int,
)
    requires
        cards.len() >= 2,
        is_integrated(cards, integrated),
        0 <= j < cards.len(),
        j != integrated,
    ensures
        primary_of(cards, integrated, GpuMode::Dgpu, source).0 != integrated,
        !wanted_before(cards, j, primary_of(cards, integrated, GpuMode::Dgpu, source).0),
{
    ranking_is_complete(cards, integrated, cards.len() as int);
    ranking_is_sorted(cards, integrated, cards.len() as int);
    let order = discretes(cards, integrated);
    assert(order.contains(j));
    let k = choose|k: int| 0 <= k < order.len() && order[k] == j;
    assert(order.contains(order[0]));
    if k == 0 {
        lemma_wanted(cards, j, j, j);
    } else {
        assert(!wanted_before(cards, order[k], order[0]));
    }
}

/// Device nodes of cards whose names hold no colon survive the colon-separated
/// device list of the compositor.
pub proof fn device_list_survives_colons(cards: Seq<CardView>, devices: Seq<int>)
    requires
        devices.len() > 0,
        forall|k: int| 0 <= k < devices.len() ==> !cards[#[trigger] devices[k]].card.contains(':'),
    ensures
        text::split_of(text::joined(nodes(cards, devices), seq![':']), ':') == nodes(
            cards,
            devices,
        ),
{
    let list = nodes(cards, devices);
    reveal_strlit("/dev/dri/");
    assert forall|i: int| 0 <= i < list.len() implies !(#[trigger] list[i]).contains(':') by {
        let c = cards[devices[i]].card;
        if list[i].contains(':') {
            let k = choose|k: int| 0 <= k < list[i].len() && list[i][k] == ':';
            if k >= "/dev/dri/"@.len() {
                assert(c[k - "/dev/dri/"@.len()] == ':');
                assert(c.contains(':'));
            } else {
                assert(list[i][k] == "/dev/dri/"@[k]);
                assert("/dev/dri/"@[0] != ':' && "/dev/dri/"@[1] != ':' && "/dev/dri/"@[2] != ':'
                    && "/dev/dri/"@[3] != ':' && "/dev/dri/"@[4] != ':' && "/dev/dri/"@[5] != ':'
                    && "/dev/dri/"@[6] != ':' && "/dev/dri/"@[7] != ':' && "/dev/dri/"@[8] != ':');
            }
        }
    }
    text::split_undoes_join(list, ':');
}

} // verus!
