//! Comparing a profile with what it was converted from.
use vstd::prelude::*;

use crate::number;
use crate::profiles::{EdpPolicy, GpuPref};
use crate::text;

verus! {

/// An output of a resolved layout. Mode and scale are given as they are shown; equal
/// values are shown alike.
#[derive(Debug)]
pub struct OutputDoc {
    pub selector: String,
    pub mode: String,
    pub position: (i32, i32),
    pub scale: String,
    pub transform: u32,
    pub enabled: bool,
}

/// What an [`OutputDoc`] holds.
pub struct OutputView {
    pub selector: Seq<char>,
    pub mode: Seq<char>,
    pub position: (i32, i32),
    pub scale: Seq<char>,
    pub transform: u32,
    pub enabled: bool,
}

impl View for OutputDoc {
    type V = OutputView;

    open spec fn view(&self) -> OutputView {
        OutputView {
            selector: self.selector@,
            mode: self.mode@,
            position: self.position,
            scale: self.scale@,
            transform: self.transform,
            enabled: self.enabled,
        }
    }
}

pub open spec fn output_views(s: Seq<OutputDoc>) -> Seq<OutputView> {
    Seq::new(s.len(), |i: int| s[i]@)
}

/// One of the two profiles that are compared.
#[derive(Debug)]
pub struct Side {
    pub matches: Vec<String>,
    pub edp: EdpPolicy,
    pub gpu: GpuPref,
    pub priority: i64,
    pub hooks: Vec<String>,
    /// The workspaces as they are shown.
    pub workspaces: String,
    /// The layout with all outputs of the profile.
    pub layout: Vec<OutputDoc>,
    /// The layout with the outputs that are connected, where the profile applies.
    pub live: Option<Vec<OutputDoc>>,
}

/// What a [`Side`] holds.
pub struct SideView {
    pub matches: Seq<Seq<char>>,
    pub edp: EdpPolicy,
    pub gpu: GpuPref,
    pub priority: int,
    pub hooks: Seq<Seq<char>>,
    pub workspaces: Seq<char>,
    pub layout: Seq<OutputView>,
    pub live: Option<Seq<OutputView>>,
}

impl View for Side {
    type V = SideView;

    open spec fn view(&self) -> SideView {
        SideView {
            matches: text::strings(self.matches@),
            edp: self.edp,
            gpu: self.gpu,
            priority: self.priority as int,
            hooks: text::strings(self.hooks@),
            workspaces: self.workspaces@,
            layout: output_views(self.layout@),
            live: match self.live {
                Some(v) => Some(output_views(v@)),
                None => None,
            },
        }
    }
}

// ---------------------------------------------------------------------- differences

/// What is said of a field that differs.
pub open spec fn diff_line(label: Seq<char>, field: Seq<char>, a: Seq<char>, b: Seq<char>) -> Seq<
    char,
> {
    label + ": "@ + field + " legacy="@ + a + " toml="@ + b
}

/// What is said of a field, if it differs.
#[verifier::opaque]
pub open spec fn diff(
    differs: bool,
    label: Seq<char>,
    field: Seq<char>,
    a: Seq<char>,
    b: Seq<char>,
) -> Seq<Seq<char>> {
    if differs {
        seq![diff_line(label, field, a, b)]
    } else {
        seq![]
    }
}

fn difference(
    out: &mut Vec<String>,
    differs: bool,
    label: &str,
    field: &str,
    a: &str,
    b: &str,
)
    ensures
        text::strings(final(out)@) == text::strings(old(out)@) + diff(
            differs,
            label@,
            field@,
            a@,
            b@,
        ),
{
    reveal(diff);
    let ghost before = text::strings(out@);
    if differs {
        let mut line = text::concat3(label, ": ", field);
        line.append(" legacy=");
        line.append(a);
        line.append(" toml=");
        line.append(b);
        out.push(line);
    }
    assert(text::strings(out@) =~= before + diff(differs, label@, field@, a@, b@));
}

/// A list of strings as it is shown.
pub open spec fn shown_strings(s: Seq<Seq<char>>) -> Seq<char> {
    "["@ + text::joined(Seq::new(s.len(), |i: int| text::debug_of(s[i])), ", "@) + "]"@
}

fn show_strings(s: &Vec<String>) -> (r: String)
    ensures
        r@ == shown_strings(text::strings(s@)),
{
    let ghost all = text::strings(s@);
    let mut parts: Vec<String> = Vec::new();
    let mut i: usize = 0;
    while i < s.len()
        invariant
            i <= s@.len(),
            all == text::strings(s@),
            parts@.len() == i,
            forall|k: int| 0 <= k < i ==> (#[trigger] parts@[k])@ == text::debug_of(all[k]),
        decreases s@.len() - i,
    {
        assert(all[i as int] == s@[i as int]@);
        parts.push(text::debug_text(s[i].as_str()));
        i += 1;
    }
    assert(text::strings(parts@) =~= Seq::new(all.len(), |i: int| text::debug_of(all[i])));
    text::concat3("[", text::join(&parts, ", ").as_str(), "]")
}

pub open spec fn shown_edp(p: EdpPolicy) -> Seq<char> {
    match p {
        EdpPolicy::Auto => "Auto"@,
        EdpPolicy::Enable => "Enable"@,
        EdpPolicy::Disable => "Disable"@,
    }
}

fn show_edp(p: EdpPolicy) -> (r: &'static str)
    ensures
        r@ == shown_edp(p),
{
    match p {
        EdpPolicy::Auto => "Auto",
        EdpPolicy::Enable => "Enable",
        EdpPolicy::Disable => "Disable",
    }
}

pub open spec fn shown_gpu(p: GpuPref) -> Seq<char> {
    match p {
        GpuPref::Auto => "Auto"@,
        GpuPref::Igpu => "Igpu"@,
        GpuPref::Dgpu => "Dgpu"@,
    }
}

fn show_gpu(p: GpuPref) -> (r: &'static str)
    ensures
        r@ == shown_gpu(p),
{
    match p {
        GpuPref::Auto => "Auto",
        GpuPref::Igpu => "Igpu",
        GpuPref::Dgpu => "Dgpu",
    }
}

pub open spec fn shown_position(p: (i32, i32)) -> Seq<char> {
    "("@ + number::signed_decimal(p.0 as int) + ", "@ + number::signed_decimal(p.1 as int) + ")"@
}

fn show_position(p: (i32, i32)) -> (r: String)
    ensures
        r@ == shown_position(p),
{
    let mut out = text::concat3("(", number::i64_text(p.0 as i64).as_str(), ", ");
    out.append(number::i64_text(p.1 as i64).as_str());
    out.append(")");
    out
}

pub open spec fn shown_flag(b: bool) -> Seq<char> {
    if b {
        "true"@
    } else {
        "false"@
    }
}

fn show_flag(b: bool) -> (r: &'static str)
    ensures
        r@ == shown_flag(b),
{
    if b {
        "true"
    } else {
        "false"
    }
}

// -------------------------------------------------------------------------- layouts

/// The differences between two outputs.
pub open spec fn output_diffs(name: Seq<char>, a: OutputView, b: OutputView) -> Seq<Seq<char>> {
    let label = name + "."@ + a.selector;
    diff(
        a.selector != b.selector,
        label,
        "selector"@,
        text::debug_of(a.selector),
        text::debug_of(b.selector),
    ) + diff(a.mode != b.mode, label, "mode"@, a.mode, b.mode) + diff(
        a.position != b.position,
        label,
        "position"@,
        shown_position(a.position),
        shown_position(b.position),
    ) + diff(a.scale != b.scale, label, "scale"@, a.scale, b.scale) + diff(
        a.transform != b.transform,
        label,
        "transform"@,
        number::decimal(a.transform as nat),
        number::decimal(b.transform as nat),
    ) + diff(
        a.enabled != b.enabled,
        label,
        "enabled"@,
        shown_flag(a.enabled),
        shown_flag(b.enabled),
    )
}

/// The differences between outputs that stand at the same place.
pub open spec fn outputs_diffs(name: Seq<char>, a: Seq<OutputView>, b: Seq<OutputView>, n: int) -> Seq<
    Seq<char>,
>
    decreases n,
{
    if n <= 0 {
        seq![]
    } else {
        outputs_diffs(name, a, b, n - 1) + output_diffs(name, a[n - 1], b[n - 1])
    }
}

pub open spec fn shorter(a: int, b: int) -> int {
    if a < b {
        a
    } else {
        b
    }
}

/// The differences between two layouts.
pub open spec fn layout_diffs(name: Seq<char>, a: Seq<OutputView>, b: Seq<OutputView>) -> Seq<
    Seq<char>,
> {
    diff(
        a.len() != b.len(),
        name,
        "output-count"@,
        number::decimal(a.len()),
        number::decimal(b.len()),
    ) + outputs_diffs(name, a, b, shorter(a.len() as int, b.len() as int))
}

fn compare_outputs(out: &mut Vec<String>, name: &str, a: &OutputDoc, b: &OutputDoc)
    ensures
        text::strings(final(out)@) == text::strings(old(out)@) + output_diffs(name@, a@, b@),
{
    let ghost before = text::strings(out@);
    let owned = text::concat3(name, ".", a.selector.as_str());
    let label = owned.as_str();
    difference(
        out,
        !text::str_eq(a.selector.as_str(), b.selector.as_str()),
        label,
        "selector",
        text::debug_text(a.selector.as_str()).as_str(),
        text::debug_text(b.selector.as_str()).as_str(),
    );
    difference(
        out,
        !text::str_eq(a.mode.as_str(), b.mode.as_str()),
        label,
        "mode",
        a.mode.as_str(),
        b.mode.as_str(),
    );
    difference(
        out,
        a.position.0 != b.position.0 || a.position.1 != b.position.1,
        label,
        "position",
        show_position(a.position).as_str(),
        show_position(b.position).as_str(),
    );
    difference(
        out,
        !text::str_eq(a.scale.as_str(), b.scale.as_str()),
        label,
        "scale",
        a.scale.as_str(),
        b.scale.as_str(),
    );
    difference(
        out,
        a.transform != b.transform,
        label,
        "transform",
        number::u64_text(a.transform as u64).as_str(),
        number::u64_text(b.transform as u64).as_str(),
    );
    difference(
        out,
        a.enabled != b.enabled,
        label,
        "enabled",
        show_flag(a.enabled),
        show_flag(b.enabled),
    );
    assert(text::strings(out@) =~= before + output_diffs(name@, a@, b@));
}

/// Adds the differences between two layouts.
pub fn compare_layouts(out: &mut Vec<String>, name: &str, a: &Vec<OutputDoc>, b: &Vec<OutputDoc>)
    ensures
        text::strings(final(out)@) == text::strings(old(out)@) + layout_diffs(
            name@,
            output_views(a@),
            output_views(b@),
        ),
{
    let ghost before = text::strings(out@);
    let ghost left = output_views(a@);
    let ghost right = output_views(b@);
    difference(
        out,
        a.len() != b.len(),
        name,
        "output-count",
        number::u64_text(a.len() as u64).as_str(),
        number::u64_text(b.len() as u64).as_str(),
    );
    let ghost counted = text::strings(out@);
    let mut i: usize = 0;
    assert(text::strings(out@) =~= counted + outputs_diffs(name@, left, right, 0));
    while i < a.len() && i < b.len()
        invariant
            i <= a@.len(),
            i <= b@.len(),
            left == output_views(a@),
            right == output_views(b@),
            text::strings(out@) == counted + outputs_diffs(name@, left, right, i as int),
        decreases a@.len() - i,
    {
        assert(left[i as int] == a@[i as int]@);
        assert(right[i as int] == b@[i as int]@);
        compare_outputs(out, name, &a[i], &b[i]);
        assert(text::strings(out@) =~= counted + outputs_diffs(name@, left, right, i + 1));
        i += 1;
    }
    assert(i == shorter(left.len() as int, right.len() as int));
    assert(text::strings(out@) =~= before + layout_diffs(name@, left, right));
}

// ------------------------------------------------------------------------- profiles

/// The differences between two profiles in everything but their layouts.
pub open spec fn field_diffs(name: Seq<char>, a: SideView, b: SideView) -> Seq<Seq<char>> {
    diff(
        a.matches != b.matches,
        name,
        "matches"@,
        shown_strings(a.matches),
        shown_strings(b.matches),
    ) + diff(a.edp != b.edp, name, "edp"@, shown_edp(a.edp), shown_edp(b.edp)) + diff(
        a.gpu != b.gpu,
        name,
        "gpu"@,
        shown_gpu(a.gpu),
        shown_gpu(b.gpu),
    ) + diff(
        a.priority != b.priority,
        name,
        "priority"@,
        number::signed_decimal(a.priority),
        number::signed_decimal(b.priority),
    ) + diff(a.hooks != b.hooks, name, "hooks"@, shown_strings(a.hooks), shown_strings(b.hooks))
        + diff(a.workspaces != b.workspaces, name, "workspaces"@, a.workspaces, b.workspaces)
}

/// All differences between a profile and what it was converted from.
pub open spec fn profile_diffs(name: Seq<char>, a: SideView, b: SideView) -> Seq<Seq<char>> {
    field_diffs(name, a, b) + layout_diffs(name, a.layout, b.layout) + (match (a.live, b.live) {
        (Some(x), Some(y)) => layout_diffs(name, x, y),
        _ => seq![],
    })
}

fn compare_fields(out: &mut Vec<String>, name: &str, a: &Side, b: &Side)
    ensures
        text::strings(final(out)@) == text::strings(old(out)@) + field_diffs(name@, a@, b@),
{
    let ghost before = text::strings(out@);
    difference(
        out,
        !text::strings_eq(&a.matches, &b.matches),
        name,
        "matches",
        show_strings(&a.matches).as_str(),
        show_strings(&b.matches).as_str(),
    );
    difference(out, a.edp != b.edp, name, "edp", show_edp(a.edp), show_edp(b.edp));
    difference(out, a.gpu != b.gpu, name, "gpu", show_gpu(a.gpu), show_gpu(b.gpu));
    difference(
        out,
        a.priority != b.priority,
        name,
        "priority",
        number::i64_text(a.priority).as_str(),
        number::i64_text(b.priority).as_str(),
    );
    difference(
        out,
        !text::strings_eq(&a.hooks, &b.hooks),
        name,
        "hooks",
        show_strings(&a.hooks).as_str(),
        show_strings(&b.hooks).as_str(),
    );
    difference(
        out,
        !text::str_eq(a.workspaces.as_str(), b.workspaces.as_str()),
        name,
        "workspaces",
        a.workspaces.as_str(),
        b.workspaces.as_str(),
    );
    assert(text::strings(out@) =~= before + field_diffs(name@, a@, b@));
}

/// All differences between a profile and what it was converted from.
pub fn verify_profiles(name: &str, legacy: &Side, toml: &Side) -> (r: Vec<String>)
    ensures
        text::strings(r@) == profile_diffs(name@, legacy@, toml@),
{
    let mut out: Vec<String> = Vec::new();
    assert(text::strings(out@) =~= seq![]);
    compare_fields(&mut out, name, legacy, toml);
    compare_layouts(&mut out, name, &legacy.layout, &toml.layout);
    match (&legacy.live, &toml.live) {
        (Some(x), Some(y)) => {
            compare_layouts(&mut out, name, x, y);
        },
        _ => {},
    }
    assert(text::strings(out@) =~= profile_diffs(name@, legacy@, toml@));
    out
}

// ------------------------------------------------------------------------- laws

proof fn lemma_same_outputs(name: Seq<char>, a: Seq<OutputView>, n: int)
    requires
        n <= a.len(),
    ensures
        outputs_diffs(name, a, a, n) =~= seq![],
    decreases n,
{
    if n > 0 {
        reveal(diff);
        lemma_same_outputs(name, a, n - 1);
        assert(output_diffs(name, a[n - 1], a[n - 1]) =~= seq![]);
    }
}

/// A profile does not differ from itself.
pub proof fn identical_profiles_agree(name: Seq<char>, a: SideView)
    ensures
        profile_diffs(name, a, a) =~= seq![],
{
    reveal(diff);
    lemma_same_outputs(name, a.layout, a.layout.len() as int);
    match a.live {
        Some(x) => {
            lemma_same_outputs(name, x, x.len() as int);
        },
        None => {},
    }
    assert(field_diffs(name, a, a) =~= seq![]);
}

proof fn lemma_outputs_grow(name: Seq<char>, a: Seq<OutputView>, b: Seq<OutputView>, i: int, n: int)
    requires
        0 <= i < n,
    ensures
        outputs_diffs(name, a, b, n).len() >= output_diffs(name, a[i], b[i]).len(),
    decreases n,
{
    if i < n - 1 {
        lemma_outputs_grow(name, a, b, i, n - 1);
    }
}

/// Profiles without differences agree in every field and in every output.
pub proof fn silence_means_agreement(name: Seq<char>, a: SideView, b: SideView)
    requires
        profile_diffs(name, a, b).len() == 0,
    ensures
        a.matches == b.matches,
        a.edp == b.edp,
        a.gpu == b.gpu,
        a.priority == b.priority,
        a.hooks == b.hooks,
        a.workspaces == b.workspaces,
        a.layout == b.layout,
{
    reveal(diff);
    assert(a.layout.len() == b.layout.len());
    let n = a.layout.len() as int;
    assert forall|i: int| 0 <= i < n implies #[trigger] a.layout[i] == b.layout[i] by {
        lemma_outputs_grow(name, a.layout, b.layout, i, n);
        assert(output_diffs(name, a.layout[i], b.layout[i]).len() == 0);
    }
    assert(a.layout =~= b.layout);
}

} // verus!
