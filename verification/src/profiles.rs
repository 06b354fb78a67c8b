//! Monitor profiles: directive parsing, profile parsing and selection.
//!
//! A profile is a Hyprland snippet with `#@ key = value` directives in its leading
//! comment block. Parsing is pure over the text; warnings are returned, not logged.
use vstd::prelude::*;

use crate::number;
use crate::text;

verus! {

/// The `#@ edp = ...` policy.
#[derive(Debug, Clone, Copy, PartialEq, Eq, Structural)]
pub enum EdpPolicy {
    Auto,
    Enable,
    Disable,
}

impl Default for EdpPolicy {
    fn default() -> (r: Self)
        ensures
            r == EdpPolicy::Auto,
    {
        EdpPolicy::Auto
    }
}

impl EdpPolicy {
    /// The word that stands for the policy in a directive.
    pub open spec fn word(self) -> Seq<char> {
        match self {
            EdpPolicy::Auto => "auto"@,
            EdpPolicy::Enable => "enable"@,
            EdpPolicy::Disable => "disable"@,
        }
    }

    /// The policy that a word stands for.
    pub open spec fn of_word(s: Seq<char>) -> Option<EdpPolicy> {
        if s == "auto"@ {
            Some(EdpPolicy::Auto)
        } else if s == "enable"@ {
            Some(EdpPolicy::Enable)
        } else if s == "disable"@ {
            Some(EdpPolicy::Disable)
        } else {
            None
        }
    }

    pub fn as_str(self) -> (r: &'static str)
        ensures
            r@ == self.word(),
    {
        match self {
            EdpPolicy::Auto => "auto",
            EdpPolicy::Enable => "enable",
            EdpPolicy::Disable => "disable",
        }
    }

    /// The policy that a word stands for.
    pub fn from_word(s: &str) -> (r: Option<EdpPolicy>)
        ensures
            r == EdpPolicy::of_word(s@),
    {
        if text::str_eq(s, "auto") {
            Some(EdpPolicy::Auto)
        } else if text::str_eq(s, "enable") {
            Some(EdpPolicy::Enable)
        } else if text::str_eq(s, "disable") {
            Some(EdpPolicy::Disable)
        } else {
            None
        }
    }

    /// Whether the panel ends up on where the lid alone would have it `on`: a
    /// profile's policy outranks the lid.
    pub open spec fn resolved(self, on: bool) -> bool {
        match self {
            EdpPolicy::Auto => on,
            EdpPolicy::Enable => true,
            EdpPolicy::Disable => false,
        }
    }

    /// Whether the panel ends up on where the lid alone would have it `on`.
    pub fn resolve(self, on: bool) -> (r: bool)
        ensures
            r == self.resolved(on),
    {
        match self {
            EdpPolicy::Auto => on,
            EdpPolicy::Enable => true,
            EdpPolicy::Disable => false,
        }
    }
}

/// The `#@ gpu = ...` render-GPU preference.
#[derive(Debug, Clone, Copy, PartialEq, Eq, Structural)]
pub enum GpuPref {
    Auto,
    Igpu,
    Dgpu,
}

impl Default for GpuPref {
    fn default() -> (r: Self)
        ensures
            r == GpuPref::Auto,
    {
        GpuPref::Auto
    }
}

impl GpuPref {
    /// The word that stands for the preference in a directive.
    pub open spec fn word(self) -> Seq<char> {
        match self {
            GpuPref::Auto => "auto"@,
            GpuPref::Igpu => "igpu"@,
            GpuPref::Dgpu => "dgpu"@,
        }
    }

    /// The preference that a word stands for.
    pub open spec fn of_word(s: Seq<char>) -> Option<GpuPref> {
        if s == "auto"@ {
            Some(GpuPref::Auto)
        } else if s == "igpu"@ {
            Some(GpuPref::Igpu)
        } else if s == "dgpu"@ {
            Some(GpuPref::Dgpu)
        } else {
            None
        }
    }

    pub fn as_str(self) -> (r: &'static str)
        ensures
            r@ == self.word(),
    {
        match self {
            GpuPref::Auto => "auto",
            GpuPref::Igpu => "igpu",
            GpuPref::Dgpu => "dgpu",
        }
    }

    /// The preference that a word stands for.
    pub fn from_word(s: &str) -> (r: Option<GpuPref>)
        ensures
            r == GpuPref::of_word(s@),
    {
        if text::str_eq(s, "auto") {
            Some(GpuPref::Auto)
        } else if text::str_eq(s, "igpu") {
            Some(GpuPref::Igpu)
        } else if text::str_eq(s, "dgpu") {
            Some(GpuPref::Dgpu)
        } else {
            None
        }
    }
}

/// A parsed monitor profile.
#[derive(Debug, PartialEq, Eq)]
pub struct Profile {
    pub name: String,
    pub matches: Vec<String>,
    pub edp: EdpPolicy,
    pub gpu: GpuPref,
    pub hooks: Vec<String>,
    /// Explicit `#@ priority`; defaults to the number of matches.
    pub priority: i64,
}

/// What a [`Profile`] holds.
#[verifier::ext_equal]
pub struct ProfileView {
    pub name: Seq<char>,
    pub matches: Seq<Seq<char>>,
    pub edp: EdpPolicy,
    pub gpu: GpuPref,
    pub hooks: Seq<Seq<char>>,
    pub priority: int,
}

impl View for Profile {
    type V = ProfileView;

    open spec fn view(&self) -> ProfileView {
        ProfileView {
            name: self.name@,
            matches: text::strings(self.matches@),
            edp: self.edp,
            gpu: self.gpu,
            hooks: text::strings(self.hooks@),
            priority: self.priority as int,
        }
    }
}

/// What each profile of a list holds.
pub open spec fn views(s: Seq<Profile>) -> Seq<ProfileView> {
    Seq::new(s.len(), |i: int| s[i]@)
}

impl Clone for Profile {
    fn clone(&self) -> (r: Profile)
        ensures
            r@ == self@,
    {
        Profile {
            name: self.name.clone(),
            matches: self.matches.clone(),
            edp: self.edp,
            gpu: self.gpu,
            hooks: self.hooks.clone(),
            priority: self.priority,
        }
    }
}

impl Profile {

    /// Whether two profiles hold the same.
    pub fn same(&self, other: &Profile) -> (r: bool)
        ensures
            r == (self@ == other@),
    {
        self.name == other.name && text::strings_eq(&self.matches, &other.matches) && self.edp
            == other.edp && self.gpu == other.gpu && text::strings_eq(&self.hooks, &other.hooks)
            && self.priority == other.priority
    }
}

// ---------------------------------------------------------------- directives

/// An ASCII lower-case letter.
pub open spec fn is_lower(c: char) -> bool {
    'a' as int <= c as int <= 'z' as int
}

/// A directive key: lower-case letters, and hyphens after the first character
/// where the dialect has them.
pub open spec fn is_key(key: Seq<char>, allow_hyphen: bool) -> bool {
    &&& key.len() > 0
    &&& forall|i: int|
        0 <= i < key.len() ==> is_lower(#[trigger] key[i]) || (allow_hyphen && i > 0 && key[i]
            == '-')
}

/// The key and value of a `#@ key = value` line.
pub open spec fn directive_of(line: Seq<char>, allow_hyphen: bool) -> Option<
    (Seq<char>, Seq<char>),
> {
    let rest = text::trimmed_start(line.skip(2));
    let k = text::find_of(rest, '=');
    let key = text::trimmed_end(rest.take(k as int));
    let val = text::trimmed(rest.skip(k as int + 1));
    if text::has_prefix(line, "#@"@) && k < rest.len() && is_key(key, allow_hyphen) && val.len()
        > 0 {
        Some((key, val))
    } else {
        None
    }
}

/// What an optional directive holds.
pub open spec fn opt_pair(o: Option<(&str, &str)>) -> Option<(Seq<char>, Seq<char>)> {
    match o {
        Some((k, v)) => Some((k@, v@)),
        None => None,
    }
}

/// Whether `c` is an ASCII lower-case letter.
fn lower(c: char) -> (r: bool)
    ensures
        r == is_lower(c),
{
    'a' <= c && c <= 'z'
}

/// Whether `key` is a directive key.
fn key_ok(key: &str, allow_hyphen: bool) -> (r: bool)
    ensures
        r == is_key(key@, allow_hyphen),
{
    let v = text::chars(key);
    let mut i: usize = 0;
    while i < v.len()
        invariant
            v@ == key@,
            i <= v@.len(),
            forall|j: int|
                0 <= j < i ==> is_lower(#[trigger] v@[j]) || (allow_hyphen && j > 0 && v@[j]
                    == '-'),
        decreases v@.len() - i,
    {
        let c: char = v[i];
        if !(lower(c) || (allow_hyphen && i > 0 && c == '-')) {
            assert(!is_lower(key@[i as int]));
            return false;
        }
        i += 1;
    }
    v.len() > 0
}

/// Parses one `#@ key = value` line. Profile keys are letters only; the power
/// configuration also has hyphens in its keys.
pub fn parse_directive(line: &str, allow_hyphen: bool) -> (r: Option<(&str, &str)>)
    ensures
        opt_pair(r) == directive_of(line@, allow_hyphen),
{
    proof {
        reveal_strlit("#@");
    }
    let rest = match text::strip_prefix(line, "#@") {
        Some(r) => text::trim_start(r),
        None => {
            return None;
        },
    };
    proof {
        text::lemma_find_is_first(rest@, '=');
    }
    let (left, right) = match text::split_once(rest, '=') {
        Some(p) => p,
        None => {
            assert(text::find_of(rest@, '=') >= rest@.len());
            return None;
        },
    };
    let key = text::trim_end(left);
    let val = text::trim(right);
    if val.is_empty() || !key_ok(key, allow_hyphen) {
        None
    } else {
        Some((key, val))
    }
}

// ------------------------------------------------------------------- parsing

/// What has been read of a profile so far.
#[verifier::ext_equal]
pub struct DraftView {
    pub matches: Seq<Seq<char>>,
    pub hooks: Seq<Seq<char>>,
    pub edp: EdpPolicy,
    pub gpu: GpuPref,
    pub priority: Option<int>,
    pub warnings: Seq<Seq<char>>,
}

/// Nothing read yet.
pub open spec fn blank_draft() -> DraftView {
    DraftView {
        matches: seq![],
        hooks: seq![],
        edp: EdpPolicy::Auto,
        gpu: GpuPref::Auto,
        priority: None,
        warnings: seq![],
    }
}

/// `d` with one more warning.
pub open spec fn warned(d: DraftView, w: Seq<char>) -> DraftView {
    DraftView { warnings: d.warnings.push(w), ..d }
}

/// What the directive `key = val` makes of `d`; an error ends the profile.
pub open spec fn directed(d: DraftView, key: Seq<char>, val: Seq<char>) -> Result<
    DraftView,
    Seq<char>,
> {
    if key == "match"@ {
        Ok(DraftView { matches: d.matches.push(val), ..d })
    } else if key == "hook"@ {
        Ok(DraftView { hooks: d.hooks.push(val), ..d })
    } else if key == "edp"@ {
        match EdpPolicy::of_word(val) {
            Some(p) => Ok(DraftView { edp: p, ..d }),
            None => Err("edp must be auto|enable|disable, got "@ + text::debug_of(val)),
        }
    } else if key == "gpu"@ {
        match GpuPref::of_word(val) {
            Some(p) => Ok(DraftView { gpu: p, ..d }),
            None => Err("gpu must be auto|igpu|dgpu, got "@ + text::debug_of(val)),
        }
    } else if key == "priority"@ {
        match number::within(number::integer_of(val), i64::MIN as int, i64::MAX as int) {
            Some(n) => Ok(DraftView { priority: Some(n), ..d }),
            None => Err("priority must be an integer, got "@ + text::debug_of(val)),
        }
    } else {
        Ok(warned(d, "unknown directive "@ + text::debug_of(key)))
    }
}

/// A line of the leading block that is no directive: a comment or nothing.
pub open spec fn is_preamble(line: Seq<char>) -> bool {
    text::has_prefix(text::trimmed_start(line), "#"@) || text::trimmed(line).len() == 0
}

/// Reads the leading block of a profile. The first line of the body ends it.
pub open spec fn scanned(d: DraftView, lines: Seq<Seq<char>>) -> Result<DraftView, Seq<char>>
    decreases lines.len(),
{
    if lines.len() == 0 {
        Ok(d)
    } else {
        let rest = lines.skip(1);
        if !text::has_prefix(lines[0], "#@"@) {
            if is_preamble(lines[0]) {
                scanned(d, rest)
            } else {
                Ok(d)
            }
        } else {
            match directive_of(lines[0], false) {
                None => scanned(
                    warned(d, "ignoring malformed directive: "@ + text::debug_of(lines[0])),
                    rest,
                ),
                Some((key, val)) => match directed(d, key, val) {
                    Ok(n) => scanned(n, rest),
                    Err(e) => Err(e),
                },
            }
        }
    }
}

/// What [`parse_profile`] makes of a text.
pub open spec fn parsed(name: Seq<char>, body: Seq<char>) -> Result<
    (ProfileView, Seq<Seq<char>>),
    Seq<char>,
> {
    match scanned(blank_draft(), text::lines_of(body)) {
        Err(e) => Err(e),
        Ok(d) => if d.matches.len() == 0 {
            Err("profile has no `#@ match = ...` directives"@)
        } else {
            Ok(
                (
                    ProfileView {
                        name,
                        matches: d.matches,
                        edp: d.edp,
                        gpu: d.gpu,
                        hooks: d.hooks,
                        priority: match d.priority {
                            Some(n) => n,
                            None => (d.matches.len() as i64) as int,
                        },
                    },
                    d.warnings,
                ),
            )
        },
    }
}

/// What the outcome of parsing holds.
pub open spec fn parse_view(r: Result<(Profile, Vec<String>), String>) -> Result<
    (ProfileView, Seq<Seq<char>>),
    Seq<char>,
> {
    match r {
        Ok((p, w)) => Ok((p@, text::strings(w@))),
        Err(e) => Err(e@),
    }
}

struct Draft {
    matches: Vec<String>,
    hooks: Vec<String>,
    edp: EdpPolicy,
    gpu: GpuPref,
    priority: Option<i64>,
    warnings: Vec<String>,
}

impl View for Draft {
    type V = DraftView;

    closed spec fn view(&self) -> DraftView {
        DraftView {
            matches: text::strings(self.matches@),
            hooks: text::strings(self.hooks@),
            edp: self.edp,
            gpu: self.gpu,
            priority: number::opt_i64(self.priority),
            warnings: text::strings(self.warnings@),
        }
    }
}

impl Draft {
    fn warn(&mut self, w: String)
        ensures
            final(self)@ == warned(old(self)@, w@),
    {
        self.warnings.push(w);
        assert(self@.warnings =~= old(self)@.warnings.push(w@));
    }

    /// Takes one directive in.
    fn direct(&mut self, key: &str, val: &str) -> (r: Result<(), String>)
        ensures
            match r {
                Ok(_) => directed(old(self)@, key@, val@) == Ok::<DraftView, Seq<char>>(
                    final(self)@,
                ),
                Err(e) => directed(old(self)@, key@, val@) == Err::<DraftView, Seq<char>>(e@),
            },
    {
        if text::str_eq(key, "match") {
            self.matches.push(String::from_str(val));
            assert(self@.matches =~= old(self)@.matches.push(val@));
        } else if text::str_eq(key, "hook") {
            self.hooks.push(String::from_str(val));
            assert(self@.hooks =~= old(self)@.hooks.push(val@));
        } else if text::str_eq(key, "edp") {
            match EdpPolicy::from_word(val) {
                Some(p) => {
                    self.edp = p;
                },
                None => {
                    return Err(text::quoted("edp must be auto|enable|disable, got ", val));
                },
            }
        } else if text::str_eq(key, "gpu") {
            match GpuPref::from_word(val) {
                Some(p) => {
                    self.gpu = p;
                },
                None => {
                    return Err(text::quoted("gpu must be auto|igpu|dgpu, got ", val));
                },
            }
        } else if text::str_eq(key, "priority") {
            match number::parse_i64(val) {
                Some(n) => {
                    self.priority = Some(n);
                },
                None => {
                    return Err(text::quoted("priority must be an integer, got ", val));
                },
            }
        } else {
            self.warn(text::quoted("unknown directive ", key));
        }
        Ok(())
    }
}

/// Parses a profile. An error means that the profile is malformed and must be
/// skipped: it has no match directive, or an invalid value. Malformed and unknown
/// directives are tolerated with a warning.
pub fn parse_profile(name: &str, text: &str) -> (r: Result<(Profile, Vec<String>), String>)
    ensures
        parse_view(r) == parsed(name@, text@),
{
    let mut d = Draft {
        matches: Vec::new(),
        hooks: Vec::new(),
        edp: EdpPolicy::Auto,
        gpu: GpuPref::Auto,
        priority: None,
        warnings: Vec::new(),
    };
    assert(d@ =~= blank_draft());
    let lines = crate::text::lines(text);
    let ghost all = crate::text::lines_of(text@);
    assert(all.skip(0) =~= all);
    let mut i: usize = 0;
    let mut body = false;
    while i < lines.len() && !body
        invariant
            i <= lines@.len(),
            crate::text::strs(lines@) == all,
            all == crate::text::lines_of(text@),
            body ==> scanned(blank_draft(), all) == Ok::<DraftView, Seq<char>>(d@),
            !body ==> scanned(d@, all.skip(i as int)) == scanned(blank_draft(), all),
        decreases lines@.len() - i + (if body { 0int } else { 1int }),
    {
        let line = lines[i];
        proof {
            assert(all.skip(i as int)[0] == line@);
            assert(all.skip(i as int).skip(1) =~= all.skip(i + 1));
        }
        if !crate::text::starts_with(line, "#@") {
            if !(crate::text::starts_with(crate::text::trim_start(line), "#") || crate::text::trim(
                line,
            ).is_empty()) {
                body = true;
            } else {
                i += 1;
            }
        } else {
            match parse_directive(line, false) {
                None => {
                    d.warn(crate::text::quoted("ignoring malformed directive: ", line));
                },
                Some((key, val)) => {
                    match d.direct(key, val) {
                        Ok(_) => {},
                        Err(e) => {
                            return Err(e);
                        },
                    }
                },
            }
            i += 1;
        }
    }
    assert(all.skip(all.len() as int) =~= Seq::<Seq<char>>::empty());
    if d.matches.len() == 0 {
        return Err(String::from_str("profile has no `#@ match = ...` directives"));
    }
    let priority: i64 = match d.priority {
        Some(n) => n,
        None => d.matches.len() as i64,
    };
    Ok(
        (
            Profile {
                name: String::from_str(name),
                matches: d.matches,
                edp: d.edp,
                gpu: d.gpu,
                hooks: d.hooks,
                priority,
            },
            d.warnings,
        ),
    )
}

// ----------------------------------------------------------------- selection

/// What a match directive asks a monitor description to start with: its value
/// without a `desc:` prefix.
pub open spec fn needle_of(m: Seq<char>) -> Seq<char> {
    text::trimmed(
        if text::has_prefix(m, "desc:"@) {
            m.skip("desc:"@.len() as int)
        } else {
            m
        },
    )
}

/// Some description of the signature starts with what the directive asks for.
pub open spec fn matched(m: Seq<char>, signature: Seq<Seq<char>>) -> bool {
    exists|i: int| 0 <= i < signature.len() && text::has_prefix(#[trigger] signature[i], needle_of(m))
}

/// Every match directive of the profile finds a monitor in the signature.
pub open spec fn eligible(p: ProfileView, signature: Seq<Seq<char>>) -> bool {
    forall|i: int| 0 <= i < p.matches.len() ==> matched(#[trigger] p.matches[i], signature)
}

/// The order of profiles: by priority, then match count, then name.
pub open spec fn ranks_below(a: ProfileView, b: ProfileView) -> bool {
    ||| a.priority < b.priority
    ||| a.priority == b.priority && a.matches.len() < b.matches.len()
    ||| a.priority == b.priority && a.matches.len() == b.matches.len() && text::text_less(
        a.name,
        b.name,
    )
}

/// The profile at `i` is eligible, no eligible one ranks above it, and of those
/// that rank with it, it is the last.
pub open spec fn is_selected(signature: Seq<Seq<char>>, profiles: Seq<ProfileView>, i: int) -> bool {
    &&& 0 <= i < profiles.len()
    &&& eligible(profiles[i], signature)
    &&& forall|j: int|
        0 <= j < profiles.len() && eligible(#[trigger] profiles[j], signature) ==> !ranks_below(
            profiles[i],
            profiles[j],
        ) && (j > i ==> ranks_below(profiles[j], profiles[i]))
}

/// A match directive matches where any detected monitor description starts with
/// its value. The `desc:` prefix is stripped, so rules can be pasted verbatim.
pub fn match_in_signature(m: &str, signature: &[String]) -> (r: bool)
    ensures
        r == matched(m@, text::strings(signature@)),
{
    let body = match text::strip_prefix(m, "desc:") {
        Some(r) => r,
        None => m,
    };
    let needle = text::trim(body);
    let mut i: usize = 0;
    while i < signature.len()
        invariant
            i <= signature@.len(),
            needle@ == needle_of(m@),
            forall|j: int|
                0 <= j < i ==> !text::has_prefix(
                    #[trigger] text::strings(signature@)[j],
                    needle_of(m@),
                ),
        decreases signature@.len() - i,
    {
        if text::starts_with(signature[i].as_str(), needle) {
            assert(text::has_prefix(text::strings(signature@)[i as int], needle_of(m@)));
            return true;
        }
        i += 1;
    }
    false
}

/// Whether every match directive of `p` finds a monitor.
fn all_match(p: &Profile, signature: &[String]) -> (r: bool)
    ensures
        r == eligible(p@, text::strings(signature@)),
{
    let mut i: usize = 0;
    while i < p.matches.len()
        invariant
            i <= p.matches@.len(),
            forall|j: int|
                0 <= j < i ==> matched(#[trigger] p@.matches[j], text::strings(signature@)),
        decreases p.matches@.len() - i,
    {
        if !match_in_signature(p.matches[i].as_str(), signature) {
            assert(!matched(p@.matches[i as int], text::strings(signature@)));
            return false;
        }
        i += 1;
    }
    true
}

/// Whether `a` ranks below `b`.
fn below(a: &Profile, b: &Profile) -> (r: bool)
    ensures
        r == ranks_below(a@, b@),
{
    if a.priority != b.priority {
        a.priority < b.priority
    } else if a.matches.len() != b.matches.len() {
        a.matches.len() < b.matches.len()
    } else {
        text::less(a.name.as_str(), b.name.as_str())
    }
}

/// Ranking is irreflexive, asymmetric and transitive, also through ties.
proof fn lemma_ranks(a: ProfileView, b: ProfileView, c: ProfileView)
    ensures
        !ranks_below(a, a),
        ranks_below(a, b) ==> !ranks_below(b, a),
        ranks_below(a, b) && !ranks_below(c, b) ==> ranks_below(a, c),
        !ranks_below(a, b) && !ranks_below(b, c) ==> !ranks_below(a, c),
{
    text::lemma_text_irreflexive(a.name);
    text::lemma_text_total(a.name, b.name);
    text::lemma_text_total(b.name, c.name);
    text::lemma_text_total(a.name, c.name);
    if text::text_less(a.name, b.name) && text::text_less(b.name, c.name) {
        text::lemma_text_transitive(a.name, b.name, c.name);
    }
    if text::text_less(a.name, c.name) && text::text_less(c.name, b.name) {
        text::lemma_text_transitive(a.name, c.name, b.name);
    }
    if text::text_less(b.name, a.name) && text::text_less(a.name, c.name) {
        text::lemma_text_transitive(b.name, a.name, c.name);
    }
}

/// Picks the profile whose match set is covered by the signature, by priority,
/// then match count, then name, all descending.
pub fn select_profile<'a>(signature: &[String], profiles: &'a [Profile]) -> (r: Option<&'a Profile>)
    ensures
        match r {
            Some(p) => exists|i: int|
                is_selected(text::strings(signature@), views(profiles@), i) && *p == profiles@[i],
            None => forall|j: int|
                0 <= j < profiles@.len() ==> !eligible(
                    #[trigger] views(profiles@)[j],
                    text::strings(signature@),
                ),
        },
{
    let ghost sig = text::strings(signature@);
    let ghost all = views(profiles@);
    let mut best: Option<usize> = None;
    let mut i: usize = 0;
    while i < profiles.len()
        invariant
            i <= profiles@.len(),
            sig == text::strings(signature@),
            all == views(profiles@),
            best matches Some(b) ==> b < i && is_selected(sig, all.take(i as int), b as int),
            best is None ==> forall|j: int| 0 <= j < i ==> !eligible(#[trigger] all[j], sig),
        decreases profiles@.len() - i,
    {
        let ghost next = all.take(i + 1);
        let ghost now = all.take(i as int);
        assert(all[i as int] == profiles@[i as int]@);
        if all_match(&profiles[i], signature) {
            let take = match best {
                None => true,
                Some(b) => !below(&profiles[i], &profiles[b]),
            };
            proof {
                if best is Some {
                    let b = best->0 as int;
                    assert forall|j: int|
                        0 <= j < next.len() && eligible(#[trigger] next[j], sig) implies (if take {
                        !ranks_below(all[i as int], next[j]) && (j > i ==> ranks_below(
                            next[j],
                            all[i as int],
                        ))
                    } else {
                        !ranks_below(all[b], next[j]) && (j > b ==> ranks_below(next[j], all[b]))
                    }) by {
                        if j < i {
                            assert(now[j] == next[j]);
                            lemma_ranks(all[i as int], all[b], next[j]);
                            lemma_ranks(all[b], next[j], all[i as int]);
                        } else {
                            lemma_ranks(all[i as int], all[b], all[b]);
                        }
                    }
                } else {
                    lemma_ranks(all[i as int], all[i as int], all[i as int]);
                    assert forall|j: int|
                        0 <= j < next.len() && eligible(#[trigger] next[j], sig) implies j == i by {
                        assert(next[j] == all[j]);
                    }
                }
            }
            if take {
                best = Some(i);
                assert(is_selected(sig, next, i as int));
            } else {
                assert(is_selected(sig, next, best->0 as int));
            }
        } else {
            proof {
                if best is Some {
                    let b = best->0 as int;
                    assert forall|j: int|
                        0 <= j < next.len() && eligible(#[trigger] next[j], sig) implies
                        !ranks_below(all[b], next[j]) && (j > b ==> ranks_below(
                        next[j],
                        all[b],
                    )) by {
                        assert(j < i);
                        assert(now[j] == next[j]);
                    }
                    assert(next[b] == now[b]);
                    assert(is_selected(sig, next, b));
                }
            }
        }
        i += 1;
    }
    assert(all.take(all.len() as int) =~= all);
    match best {
        Some(b) => {
            assert(is_selected(sig, all, b as int));
            Some(&profiles[b])
        },
        None => None,
    }
}

/// The selected profile of a list, where any is eligible.
pub open spec fn chosen(signature: Seq<Seq<char>>, profiles: Seq<ProfileView>) -> Option<
    ProfileView,
> {
    if exists|i: int| is_selected(signature, profiles, i) {
        Some(profiles[choose|i: int| is_selected(signature, profiles, i)])
    } else {
        None
    }
}

/// A copy of the selected profile of a list.
pub fn choose_profile(signature: &Vec<String>, profiles: &Vec<Profile>) -> (r: Option<Profile>)
    ensures
        match r {
            Some(p) => chosen(text::strings(signature@), views(profiles@)) == Some(p@),
            None => chosen(text::strings(signature@), views(profiles@)) is None,
        },
{
    let ghost sig = text::strings(signature@);
    let ghost all = views(profiles@);
    match select_profile(signature.as_slice(), profiles.as_slice()) {
        Some(p) => {
            proof {
                let i = choose|i: int| is_selected(sig, all, i) && *p == profiles@[i];
                let k = choose|k: int| is_selected(sig, all, k);
                selection_is_unique(sig, all, i, k);
                assert(all[i] == p@);
            }
            Some(p.clone())
        },
        None => {
            assert forall|i: int| !is_selected(sig, all, i) by {
                if is_selected(sig, all, i) {
                    assert(eligible(all[i], sig));
                }
            }
            None
        },
    }
}

// ---------------------------------------------------------------------- laws

/// At most one profile of a list is the selected one.
pub proof fn selection_is_unique(
    signature: Seq<Seq<char>>,
    profiles: Seq<ProfileView>,
    i: int,
    j: int,
)
    requires
        is_selected(signature, profiles, i),
        is_selected(signature, profiles, j),
    ensures
        i == j,
{
    assert(eligible(profiles[i], signature) && eligible(profiles[j], signature));
}

/// Where any profile is eligible, one is selected.
pub proof fn selection_exists(signature: Seq<Seq<char>>, profiles: Seq<ProfileView>, k: int)
    requires
        0 <= k < profiles.len(),
        eligible(profiles[k], signature),
    ensures
        exists|i: int| is_selected(signature, profiles, i),
    decreases profiles.len(),
{
    let n = profiles.len() - 1;
    let init = profiles.take(n);
    if exists|m: int| 0 <= m < n && eligible(#[trigger] profiles[m], signature) {
        let m = choose|m: int| 0 <= m < n && eligible(#[trigger] profiles[m], signature);
        assert(init[m] == profiles[m]);
        selection_exists(signature, init, m);
        let b = choose|b: int| is_selected(signature, init, b);
        let winner = if eligible(profiles[n], signature) && !ranks_below(profiles[n], profiles[b]) {
            n
        } else {
            b
        };
        assert forall|j: int|
            0 <= j < profiles.len() && eligible(#[trigger] profiles[j], signature) implies
            !ranks_below(profiles[winner], profiles[j]) && (j > winner ==> ranks_below(
            profiles[j],
            profiles[winner],
        )) by {
            if j < n {
                assert(init[j] == profiles[j]);
            }
            lemma_ranks(profiles[n], profiles[b], profiles[j]);
            lemma_ranks(profiles[b], profiles[j], profiles[n]);
            lemma_ranks(profiles[winner], profiles[winner], profiles[winner]);
        }
        assert(is_selected(signature, profiles, winner));
    } else {
        assert(k == n);
        lemma_ranks(profiles[k], profiles[k], profiles[k]);
        assert(is_selected(signature, profiles, k));
    }
}

/// Nothing below the first line of the body has any bearing on the profile.
pub proof fn body_is_not_read(d: DraftView, head: Seq<Seq<char>>, body: Seq<Seq<char>>)
    requires
        body.len() > 0,
        !text::has_prefix(body[0], "#@"@),
        !is_preamble(body[0]),
    ensures
        scanned(d, head + body) == scanned(d, head),
    decreases head.len(),
{
    if head.len() == 0 {
        assert(head + body =~= body);
    } else {
        assert((head + body)[0] == head[0]);
        assert((head + body).skip(1) =~= head.skip(1) + body);
        let line = head[0];
        if !text::has_prefix(line, "#@"@) {
            if is_preamble(line) {
                body_is_not_read(d, head.skip(1), body);
            }
        } else {
            match directive_of(line, false) {
                None => body_is_not_read(
                    warned(d, "ignoring malformed directive: "@ + text::debug_of(line)),
                    head.skip(1),
                    body,
                ),
                Some((key, val)) => match directed(d, key, val) {
                    Ok(n) => body_is_not_read(n, head.skip(1), body),
                    Err(e) => {},
                },
            }
        }
    }
}

/// A key with a hyphen is no key of a profile directive.
pub proof fn profile_keys_have_no_hyphen(key: Seq<char>, i: int)
    requires
        0 <= i < key.len(),
        key[i] == '-',
    ensures
        !is_key(key, false),
{
    assert(!is_lower(key[i]));
}

/// Every profile that parses has a match directive and the name it was given.
pub proof fn parsed_profiles_match_something(name: Seq<char>, body: Seq<char>)
    ensures
        parsed(name, body) matches Ok(p) ==> p.0.matches.len() > 0 && p.0.name == name,
{
}

/// The word of a policy stands for that policy.
pub proof fn policy_words_roundtrip(e: EdpPolicy, g: GpuPref)
    ensures
        EdpPolicy::of_word(e.word()) == Some(e),
        GpuPref::of_word(g.word()) == Some(g),
{
    reveal_strlit("auto");
    reveal_strlit("enable");
    reveal_strlit("disable");
    reveal_strlit("igpu");
    reveal_strlit("dgpu");
    assert("auto"@[0] != "enable"@[0]);
    assert("auto"@[0] != "disable"@[0]);
    assert("enable"@[0] != "disable"@[0]);
    assert("auto"@[0] != "igpu"@[0]);
    assert("auto"@[0] != "dgpu"@[0]);
    assert("igpu"@[0] != "dgpu"@[0]);
}

} // verus!
