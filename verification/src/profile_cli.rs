//! The `profile` command: listing, switching, saving and migrating monitor profiles.
use vstd::prelude::*;

use crate::number;
use crate::order;
use crate::profile_store;
use crate::profile_store::{dialect, extension, file_stem, ProfileFormat};
use crate::profiles;
use crate::profiles::{match_in_signature, EdpPolicy, GpuPref, Profile, ProfileView};
use crate::text;

verus! {

/// What `profile save` was told.
#[derive(Debug, Clone, Copy)]
pub struct SaveOpts {
    pub edp: EdpPolicy,
    pub gpu: GpuPref,
    pub priority: Option<i64>,
    pub force: bool,
    pub dry_run: bool,
    /// The dialect to render in. `None`: that of the compositor's configuration.
    pub format: Option<ProfileFormat>,
}

impl SaveOpts {
    /// The dialect to render in.
    pub open spec fn dialect(self, lua_config: bool) -> ProfileFormat {
        match self.format {
            Some(f) => f,
            None => if lua_config {
                ProfileFormat::Lua
            } else {
                ProfileFormat::Conf
            },
        }
    }

    /// The dialect to render in. `lua_config`: the compositor has a Lua configuration.
    pub fn render_format(&self, lua_config: bool) -> (r: ProfileFormat)
        ensures
            r == self.dialect(lua_config),
    {
        match self.format {
            Some(f) => f,
            None => {
                if lua_config {
                    ProfileFormat::Lua
                } else {
                    ProfileFormat::Conf
                }
            },
        }
    }
}

// -------------------------------------------------------------------------- names

/// The character may stand in a profile's name.
pub open spec fn is_name_char(c: char) -> bool {
    ||| 'a' as int <= c as int <= 'z' as int
    ||| 'A' as int <= c as int <= 'Z' as int
    ||| '0' as int <= c as int <= '9' as int
    ||| c == '-'
    ||| c == '_'
    ||| c == '.'
}

/// The name is one that a profile may be saved under.
pub open spec fn is_valid_name(name: Seq<char>) -> bool {
    &&& name.len() > 0
    &&& name[0] != '.'
    &&& forall|i: int| 0 <= i < name.len() ==> is_name_char(#[trigger] name[i])
}

fn name_char(c: char) -> (r: bool)
    ensures
        r == is_name_char(c),
{
    ('a' <= c && c <= 'z') || ('A' <= c && c <= 'Z') || ('0' <= c && c <= '9') || c == '-' || c == '_'
        || c == '.'
}

/// Whether a profile may be saved under a name. Such a name cannot lead out of the
/// directory, nor hide in it.
pub fn valid_name(name: &str) -> (r: bool)
    ensures
        r == is_valid_name(name@),
{
    let v = text::chars(name);
    if v.len() == 0 || v[0] == '.' {
        return false;
    }
    let mut i: usize = 0;
    while i < v.len()
        invariant
            i <= v@.len(),
            v@ == name@,
            v@.len() > 0,
            v@[0] != '.',
            forall|k: int| 0 <= k < i ==> is_name_char(#[trigger] v@[k]),
        decreases v@.len() - i,
    {
        if !name_char(v[i]) {
            return false;
        }
        i += 1;
    }
    true
}

/// What `profile save` does before it captures anything.
#[derive(Debug, Clone, Copy, PartialEq, Eq, Structural)]
pub enum SaveCheck {
    Capture,
    NoName,
    BadName,
    Exists,
}

pub open spec fn save_checked(name: Option<Seq<char>>, exists_already: bool, force: bool) -> SaveCheck {
    match name {
        None => SaveCheck::NoName,
        Some(n) => if !is_valid_name(n) {
            SaveCheck::BadName
        } else if exists_already && !force {
            SaveCheck::Exists
        } else {
            SaveCheck::Capture
        },
    }
}

/// Decides whether `profile save` goes on to capture the layout.
pub fn save_check(name: Option<&str>, exists_already: bool, force: bool) -> (r: SaveCheck)
    ensures
        r == save_checked(text::opt_str(name), exists_already, force),
{
    match name {
        None => SaveCheck::NoName,
        Some(n) => {
            if !valid_name(n) {
                SaveCheck::BadName
            } else if exists_already && !force {
                SaveCheck::Exists
            } else {
                SaveCheck::Capture
            }
        },
    }
}

impl SaveCheck {
    /// What is said where nothing is captured.
    pub open spec fn complaint(self, name: Seq<char>) -> Option<Seq<char>> {
        match self {
            SaveCheck::Capture => None,
            SaveCheck::NoName => Some("save requires a profile name"@),
            SaveCheck::BadName => Some(
                "profile names are [A-Za-z0-9._-]+ and must not start with '.'"@,
            ),
            SaveCheck::Exists => Some(
                "profile "@ + name + " already exists \u{2014} use --force to overwrite"@,
            ),
        }
    }

    /// What is said where nothing is captured.
    pub fn line(self, name: &str) -> (r: Option<String>)
        ensures
            text::opt_string(r) == self.complaint(name@),
    {
        match self {
            SaveCheck::Capture => None,
            SaveCheck::NoName => Some(String::from_str("save requires a profile name")),
            SaveCheck::BadName => Some(
                String::from_str("profile names are [A-Za-z0-9._-]+ and must not start with '.'"),
            ),
            SaveCheck::Exists => Some(
                text::concat3("profile ", name, " already exists \u{2014} use --force to overwrite"),
            ),
        }
    }

    /// How the command ends where nothing is captured.
    pub fn code(self) -> (r: i32)
        ensures
            r == (match self {
                SaveCheck::Capture => 0i32,
                SaveCheck::NoName => 2,
                SaveCheck::BadName => 2,
                SaveCheck::Exists => 1,
            }),
    {
        match self {
            SaveCheck::Capture => 0,
            SaveCheck::NoName => 2,
            SaveCheck::BadName => 2,
            SaveCheck::Exists => 1,
        }
    }
}

// --------------------------------------------------------------------------- list

/// All matches of a profile are connected.
pub open spec fn applies(matches: Seq<Seq<char>>, signature: Seq<Seq<char>>) -> bool {
    forall|i: int| 0 <= i < matches.len() ==> profiles::matched(#[trigger] matches[i], signature)
}

/// Whether all matches of a profile are connected.
pub fn profile_applies(matches: &Vec<String>, signature: &Vec<String>) -> (r: bool)
    ensures
        r == applies(text::strings(matches@), text::strings(signature@)),
{
    let ghost all = text::strings(matches@);
    let mut i: usize = 0;
    while i < matches.len()
        invariant
            i <= matches@.len(),
            all == text::strings(matches@),
            forall|k: int|
                0 <= k < i ==> profiles::matched(#[trigger] all[k], text::strings(signature@)),
        decreases matches@.len() - i,
    {
        assert(all[i as int] == matches@[i as int]@);
        if !match_in_signature(matches[i].as_str(), signature.as_slice()) {
            return false;
        }
        i += 1;
    }
    true
}

/// The order of positions by priority, the greatest first.
pub open spec fn by_priority(list: Seq<ProfileView>) -> spec_fn(int, int) -> bool {
    |a: int, b: int| list[a].priority > list[b].priority
}

/// The line about one profile.
pub open spec fn list_line(p: ProfileView, signature: Seq<Seq<char>>) -> Seq<char> {
    "  ["@ + (if applies(p.matches, signature) {
        "\u{2713}"@
    } else {
        " "@
    }) + "] "@ + text::padded(p.name, 28) + " prio="@ + number::signed_decimal(p.priority as int)
        + " edp="@ + text::padded(p.edp.word(), 7) + " match=["@ + text::joined(p.matches, ", "@)
        + "]"@
}

/// The lines about all profiles, the greatest priority first.
pub open spec fn list_lines_of(list: Seq<ProfileView>, signature: Seq<Seq<char>>) -> Seq<Seq<char>> {
    let at = order::order(by_priority(list), list.len() as int);
    Seq::new(list.len(), |i: int| list_line(list[at[i]], signature))
}

fn profile_line(p: &Profile, signature: &Vec<String>) -> (r: String)
    ensures
        r@ == list_line(p@, text::strings(signature@)),
{
    let mark = if profile_applies(&p.matches, signature) {
        "\u{2713}"
    } else {
        " "
    };
    let mut out = text::concat3("  [", mark, "] ");
    out.append(text::pad(p.name.as_str(), 28).as_str());
    out.append(" prio=");
    out.append(number::i64_text(p.priority).as_str());
    out.append(" edp=");
    out.append(text::pad(p.edp.as_str(), 7).as_str());
    out.append(" match=[");
    out.append(text::join(&p.matches, ", ").as_str());
    out.append("]");
    out
}

/// The lines about all profiles, the greatest priority first; equals stay in the order
/// in which they were loaded.
pub fn list_lines(list: &Vec<Profile>, signature: &Vec<String>) -> (r: Vec<String>)
    ensures
        text::strings(r@) == list_lines_of(profiles::views(list@), text::strings(signature@)),
{
    let ghost all = profiles::views(list@);
    let ghost told = text::strings(signature@);
    let f = |a: usize, b: usize| -> (c: bool)
        requires
            a < list@.len(),
            b < list@.len(),
        ensures
            c == (list@[a as int].priority > list@[b as int].priority),
        { list[a].priority > list[b].priority };
    let at = order::sort_positions(list.len(), f, Ghost(by_priority(all)));
    let ghost want = list_lines_of(all, told);
    let mut out: Vec<String> = Vec::new();
    let mut i: usize = 0;
    while i < at.len()
        invariant
            i <= at@.len(),
            at@.len() == list@.len(),
            all == profiles::views(list@),
            told == text::strings(signature@),
            want == list_lines_of(all, told),
            order::positions(at@) == order::order(by_priority(all), list@.len() as int),
            forall|k: int| 0 <= k < at@.len() ==> (#[trigger] at@[k]) < list@.len(),
            out@.len() == i,
            forall|k: int| 0 <= k < i ==> (#[trigger] out@[k])@ == want[k],
        decreases at@.len() - i,
    {
        let k = at[i];
        assert(order::positions(at@)[i as int] == k as int);
        assert(all[k as int] == list@[k as int]@);
        out.push(profile_line(&list[k], signature));
        i += 1;
    }
    assert(text::strings(out@) =~= want);
    out
}

// ------------------------------------------------------------------------- switch

/// The names of some profiles.
pub open spec fn names_of(list: Seq<ProfileView>) -> Seq<Seq<char>> {
    Seq::new(list.len(), |i: int| list[i].name)
}

/// The line with the names that can be switched to.
pub fn available_line(list: &Vec<Profile>) -> (r: String)
    ensures
        r@ == "available: "@ + text::joined(names_of(profiles::views(list@)), ", "@),
{
    let ghost all = profiles::views(list@);
    let mut names: Vec<String> = Vec::new();
    let mut i: usize = 0;
    while i < list.len()
        invariant
            i <= list@.len(),
            all == profiles::views(list@),
            names@.len() == i,
            forall|k: int| 0 <= k < i ==> (#[trigger] names@[k])@ == all[k].name,
        decreases list@.len() - i,
    {
        assert(all[i as int] == list@[i as int]@);
        names.push(list[i].name.clone());
        i += 1;
    }
    assert(text::strings(names@) =~= names_of(all));
    text::concat2("available: ", text::join(&names, ", ").as_str())
}

/// What `profile switch` does before it touches the link.
#[derive(Debug, Clone, Copy, PartialEq, Eq, Structural)]
pub enum SwitchCheck {
    Switch,
    NoName,
    Unknown,
}

/// Some profile of the list has the name.
pub open spec fn is_known(list: Seq<ProfileView>, name: Seq<char>) -> bool {
    exists|i: int| 0 <= i < list.len() && (#[trigger] list[i]).name == name
}

/// Decides whether `profile switch` goes on to point the link at the named profile.
pub fn switch_check(name: Option<&str>, list: &Vec<Profile>) -> (r: SwitchCheck)
    ensures
        r == (match text::opt_str(name) {
            None => SwitchCheck::NoName,
            Some(n) => if is_known(profiles::views(list@), n) {
                SwitchCheck::Switch
            } else {
                SwitchCheck::Unknown
            },
        }),
{
    let wanted = match name {
        Some(n) => n,
        None => {
            return SwitchCheck::NoName;
        },
    };
    let ghost all = profiles::views(list@);
    let mut i: usize = 0;
    while i < list.len()
        invariant
            i <= list@.len(),
            all == profiles::views(list@),
            name is Some,
            name->0@ == wanted@,
            forall|k: int| 0 <= k < i ==> (#[trigger] all[k]).name != wanted@,
        decreases list@.len() - i,
    {
        assert(all[i as int] == list@[i as int]@);
        if text::str_eq(list[i].name.as_str(), wanted) {
            return SwitchCheck::Switch;
        }
        i += 1;
    }
    SwitchCheck::Unknown
}

impl SwitchCheck {
    /// How the command ends where nothing is switched.
    pub fn code(self) -> (r: i32)
        ensures
            r == (match self {
                SwitchCheck::Switch => 0i32,
                SwitchCheck::NoName => 2,
                SwitchCheck::Unknown => 1,
            }),
    {
        match self {
            SwitchCheck::Switch => 0,
            SwitchCheck::NoName => 2,
            SwitchCheck::Unknown => 1,
        }
    }
}

// --------------------------------------------------------------------- legacy files

/// The file is a profile in a dialect of the compositor, and the one that is wanted.
pub open spec fn is_candidate(name: Seq<char>, only: Option<Seq<char>>) -> bool {
    &&& profile_store::dialect_of(name) is Some
    &&& !text::has_prefix(name, "."@)
    &&& only matches Some(w) ==> profile_store::stem_of(name) == w
}

/// Picks the files that may be migrated.
pub open spec fn wanted(only: Option<Seq<char>>) -> spec_fn(Seq<char>) -> bool {
    |name: Seq<char>| is_candidate(name, only)
}

/// The files that may be migrated.
pub open spec fn candidates(names: Seq<Seq<char>>, only: Option<Seq<char>>) -> Seq<Seq<char>> {
    names.filter(wanted(only))
}

/// A Lua file of the same profile stands beside the file. The session loads that one.
pub open spec fn displaced(name: Seq<char>, all: Seq<Seq<char>>) -> bool {
    &&& profile_store::extension_of(name) != Some("lua"@)
    &&& exists|i: int|
        0 <= i < all.len() && profile_store::stem_of(#[trigger] all[i]) == profile_store::stem_of(
            name,
        ) && profile_store::extension_of(all[i]) == Some("lua"@)
}

/// Picks the files that no Lua file displaces.
pub open spec fn standing(all: Seq<Seq<char>>) -> spec_fn(Seq<char>) -> bool {
    |name: Seq<char>| !displaced(name, all)
}

/// The files that are migrated, in the order of their names.
pub open spec fn legacy_of(names: Seq<Seq<char>>, only: Option<Seq<char>>) -> Seq<Seq<char>> {
    let all = candidates(names, only);
    order::sorted_texts(all).filter(standing(all))
}

fn keep_candidates(names: &Vec<String>, only: Option<&str>) -> (r: Vec<String>)
    ensures
        text::strings(r@) == candidates(text::strings(names@), text::opt_str(only)),
{
    let ghost all = text::strings(names@);
    let ghost pick = wanted(text::opt_str(only));
    let mut out: Vec<String> = Vec::new();
    let mut i: usize = 0;
    proof {
        reveal(Seq::filter);
        assert(text::strings(out@) =~= all.take(0).filter(pick));
    }
    while i < names.len()
        invariant
            i <= names@.len(),
            all == text::strings(names@),
            pick == wanted(text::opt_str(only)),
            text::strings(out@) == all.take(i as int).filter(pick),
        decreases names@.len() - i,
    {
        proof {
            assert(all.take(i + 1) =~= all.take(i as int).push(names@[i as int]@));
            all.take(i as int).lemma_filter_push(names@[i as int]@, pick);
        }
        let name = names[i].as_str();
        let fits = match only {
            Some(w) => text::str_eq(file_stem(name), w),
            None => true,
        };
        let ghost before = text::strings(out@);
        if dialect(name).is_some() && !text::starts_with(name, ".") && fits {
            out.push(names[i].clone());
            assert(text::strings(out@) =~= before.push(names@[i as int]@));
        }
        i += 1;
    }
    assert(all.take(all.len() as int) =~= all);
    out
}

fn is_lua(name: &str) -> (r: bool)
    ensures
        r == (profile_store::extension_of(name@) == Some("lua"@)),
{
    match extension(name) {
        Some(e) => text::str_eq(e, "lua"),
        None => false,
    }
}

fn is_displaced(name: &str, all: &Vec<String>) -> (r: bool)
    ensures
        r == displaced(name@, text::strings(all@)),
{
    if is_lua(name) {
        return false;
    }
    let ghost list = text::strings(all@);
    let stem = file_stem(name);
    let mut i: usize = 0;
    while i < all.len()
        invariant
            i <= all@.len(),
            list == text::strings(all@),
            stem@ == profile_store::stem_of(name@),
            profile_store::extension_of(name@) != Some("lua"@),
            forall|k: int|
                0 <= k < i ==> profile_store::stem_of(#[trigger] list[k]) != stem@
                    || profile_store::extension_of(list[k]) != Some("lua"@),
        decreases all@.len() - i,
    {
        let other = all[i].as_str();
        assert(list[i as int] == other@);
        if is_lua(other) && text::str_eq(file_stem(other), stem) {
            return true;
        }
        i += 1;
    }
    false
}

/// The files that are migrated: those in a dialect of the compositor, in the order of
/// their names, and of twins only the Lua file.
pub fn legacy_files(names: &Vec<String>, only: Option<&str>) -> (r: Vec<String>)
    ensures
        text::strings(r@) == legacy_of(text::strings(names@), text::opt_str(only)),
{
    let picked = keep_candidates(names, only);
    let sorted = order::sort_texts(&picked);
    let ghost all = text::strings(sorted@);
    let ghost keep = standing(text::strings(picked@));
    let mut out: Vec<String> = Vec::new();
    let mut i: usize = 0;
    proof {
        reveal(Seq::filter);
        assert(text::strings(out@) =~= all.take(0).filter(keep));
    }
    while i < sorted.len()
        invariant
            i <= sorted@.len(),
            all == text::strings(sorted@),
            keep == standing(text::strings(picked@)),
            text::strings(out@) == all.take(i as int).filter(keep),
        decreases sorted@.len() - i,
    {
        proof {
            assert(all.take(i + 1) =~= all.take(i as int).push(sorted@[i as int]@));
            all.take(i as int).lemma_filter_push(sorted@[i as int]@, keep);
        }
        let ghost before = text::strings(out@);
        if !is_displaced(sorted[i].as_str(), &picked) {
            out.push(sorted[i].clone());
            assert(text::strings(out@) =~= before.push(sorted@[i as int]@));
        }
        i += 1;
    }
    assert(all.take(all.len() as int) =~= all);
    out
}

// ----------------------------------------------------------------------- migrating

/// What becomes of one file that is to be migrated.
#[derive(Debug, Clone, Copy, PartialEq, Eq, Structural)]
pub enum Migration {
    /// There is a profile already, and it is not to be overwritten.
    Skip,
    /// The file is to be read and converted.
    Convert,
}

/// Decides whether a file is converted.
pub fn migration(target_exists: bool, force: bool) -> (r: Migration)
    ensures
        r == (if target_exists && !force {
            Migration::Skip
        } else {
            Migration::Convert
        }),
{
    if target_exists && !force {
        Migration::Skip
    } else {
        Migration::Convert
    }
}

/// What becomes of a converted profile.
#[derive(Debug, Clone, Copy, PartialEq, Eq, Structural)]
pub enum Converted {
    /// The layout got lost: a profile without monitors is never written.
    Refuse,
    /// Only told about.
    WouldWrite,
    Write,
}

/// Decides what becomes of a converted profile.
pub fn converted(monitors: usize, dry_run: bool) -> (r: Converted)
    ensures
        r == (if monitors == 0 {
            Converted::Refuse
        } else if dry_run {
            Converted::WouldWrite
        } else {
            Converted::Write
        }),
{
    if monitors == 0 {
        Converted::Refuse
    } else if dry_run {
        Converted::WouldWrite
    } else {
        Converted::Write
    }
}

impl Converted {
    /// How the command ends on account of the profile.
    pub fn code(self) -> (r: i32)
        ensures
            r == (if self == Converted::Refuse {
                1i32
            } else {
                0
            }),
    {
        match self {
            Converted::Refuse => 1,
            _ => 0,
        }
    }
}

/// How far one migrated profile could be read.
#[derive(Debug, Clone, Copy)]
pub struct Comparable {
    pub toml_exists: bool,
    pub legacy_read: bool,
    pub toml_read: bool,
    pub legacy_parsed: bool,
    pub toml_parsed: bool,
    pub legacy_monitors: usize,
    pub toml_monitors: usize,
}

/// What becomes of one migrated profile.
#[derive(Debug, Clone, Copy, PartialEq, Eq, Structural)]
pub enum Verification {
    /// It was not migrated.
    Skip,
    Complain(Complaint),
    Compare,
}

/// Why a migrated profile cannot be compared.
#[derive(Debug, Clone, Copy, PartialEq, Eq, Structural)]
pub enum Complaint {
    LegacyUnread,
    TomlUnread,
    LegacyUnparsed,
    TomlUnparsed,
    /// Both sides are empty: that is no match but a lost layout.
    NoMonitors,
}

pub open spec fn verification_of(c: Comparable) -> Verification {
    if !c.toml_exists {
        Verification::Skip
    } else if !c.legacy_read {
        Verification::Complain(Complaint::LegacyUnread)
    } else if !c.toml_read {
        Verification::Complain(Complaint::TomlUnread)
    } else if !c.legacy_parsed {
        Verification::Complain(Complaint::LegacyUnparsed)
    } else if !c.toml_parsed {
        Verification::Complain(Complaint::TomlUnparsed)
    } else if c.legacy_monitors == 0 && c.toml_monitors == 0 {
        Verification::Complain(Complaint::NoMonitors)
    } else {
        Verification::Compare
    }
}

/// Decides what becomes of one migrated profile.
pub fn verification(c: Comparable) -> (r: Verification)
    ensures
        r == verification_of(c),
{
    if !c.toml_exists {
        Verification::Skip
    } else if !c.legacy_read {
        Verification::Complain(Complaint::LegacyUnread)
    } else if !c.toml_read {
        Verification::Complain(Complaint::TomlUnread)
    } else if !c.legacy_parsed {
        Verification::Complain(Complaint::LegacyUnparsed)
    } else if !c.toml_parsed {
        Verification::Complain(Complaint::TomlUnparsed)
    } else if c.legacy_monitors == 0 && c.toml_monitors == 0 {
        Verification::Complain(Complaint::NoMonitors)
    } else {
        Verification::Compare
    }
}

impl Complaint {
    pub open spec fn words(self) -> Seq<char> {
        match self {
            Complaint::LegacyUnread => "cannot read legacy file"@,
            Complaint::TomlUnread => "cannot read TOML file"@,
            Complaint::LegacyUnparsed => "cannot parse legacy file"@,
            Complaint::TomlUnparsed => "cannot parse TOML file"@,
            Complaint::NoMonitors => "resolves to zero monitors on both sides \u{2014} the layout was not preserved (an empty-vs-empty comparison is not a match)"@,
        }
    }

    /// The complaint about a profile.
    pub fn line(self, name: &str) -> (r: String)
        ensures
            r@ == name@ + ": "@ + self.words(),
    {
        let words = match self {
            Complaint::LegacyUnread => "cannot read legacy file",
            Complaint::TomlUnread => "cannot read TOML file",
            Complaint::LegacyUnparsed => "cannot parse legacy file",
            Complaint::TomlUnparsed => "cannot parse TOML file",
            Complaint::NoMonitors => "resolves to zero monitors on both sides \u{2014} the layout was not preserved (an empty-vs-empty comparison is not a match)",
        };
        text::concat3(name, ": ", words)
    }
}

/// What is said of a dry run.
pub fn dry_run_line(converted: usize) -> (r: String)
    ensures
        r@ == number::decimal(converted as nat) + " profiles would be migrated"@,
{
    text::concat2(number::u64_text(converted as u64).as_str(), " profiles would be migrated")
}

/// What is said at the end of a comparison, and how the command ends: well only where
/// nothing differs.
pub fn verify_outcome(compared: u64, differences: Vec<String>) -> (r: (Vec<String>, i32))
    ensures
        text::strings(differences@).len() == 0 ==> r.1 == 0 && text::strings(r.0@) == seq![
            number::decimal(compared as nat) + " profiles verified identical"@,
        ],
        text::strings(differences@).len() > 0 ==> r.1 == 1 && text::strings(r.0@) == text::strings(
            differences@,
        ),
{
    if differences.len() > 0 {
        return (differences, 1);
    }
    let line = text::concat2(
        number::u64_text(compared).as_str(),
        " profiles verified identical",
    );
    let out: Vec<String> = vec![line];
    assert(text::strings(out@) =~= seq![line@]);
    (out, 0)
}

// ------------------------------------------------------------------------- laws

/// A name that a profile may be saved under holds no separator of directories.
pub proof fn valid_names_stay_in_the_directory(name: Seq<char>)
    requires
        is_valid_name(name),
    ensures
        !name.contains('/'),
        !text::has_prefix(name, "."@),
{
    reveal_strlit(".");
    if name.contains('/') {
        let i = choose|i: int| 0 <= i < name.len() && name[i] == '/';
        assert(is_name_char(name[i]));
    }
    if text::has_prefix(name, "."@) {
        assert(name.take(1)[0] == name[0]);
    }
}

/// Picking keeps what holds between every earlier and every later file.
proof fn lemma_filter_keeps(
    s: Seq<Seq<char>>,
    pick: spec_fn(Seq<char>) -> bool,
    rel: spec_fn(Seq<char>, Seq<char>) -> bool,
)
    requires
        forall|a: int, b: int| 0 <= a < b < s.len() ==> rel(#[trigger] s[a], #[trigger] s[b]),
    ensures
        forall|a: int, b: int|
            0 <= a < b < s.filter(pick).len() ==> rel(
                #[trigger] s.filter(pick)[a],
                #[trigger] s.filter(pick)[b],
            ),
        forall|x: Seq<char>| #[trigger] s.filter(pick).contains(x) <==> s.contains(x) && pick(x),
    decreases s.len(),
{
    reveal(Seq::filter);
    let out = s.filter(pick);
    if s.len() > 0 {
        let init = s.drop_last();
        let kept = init.filter(pick);
        assert forall|a: int, b: int| 0 <= a < b < init.len() implies rel(
            #[trigger] init[a],
            #[trigger] init[b],
        ) by {
            assert(rel(s[a], s[b]));
        }
        lemma_filter_keeps(init, pick, rel);
        assert forall|a: int, b: int| 0 <= a < b < out.len() implies rel(
            #[trigger] out[a],
            #[trigger] out[b],
        ) by {
            if b < kept.len() {
                assert(out[a] == kept[a] && out[b] == kept[b]);
            } else {
                assert(out[a] == kept[a] && out[b] == s.last());
                assert(kept.contains(kept[a]));
                let k = choose|k: int| 0 <= k < init.len() && init[k] == kept[a];
                assert(rel(s[k], s[s.len() - 1]));
            }
        }
        assert forall|x: Seq<char>| #[trigger] out.contains(x) <==> s.contains(x) && pick(x) by {
            if out.contains(x) {
                let k = choose|k: int| 0 <= k < out.len() && out[k] == x;
                if k < kept.len() {
                    assert(kept[k] == x);
                    assert(kept.contains(x));
                    assert(init.contains(x) && pick(x));
                    let j = choose|j: int| 0 <= j < init.len() && init[j] == x;
                    assert(s[j] == x);
                } else {
                    assert(s[s.len() - 1] == x);
                }
            }
            if s.contains(x) && pick(x) {
                let k = choose|k: int| 0 <= k < s.len() && s[k] == x;
                if k == s.len() - 1 {
                    assert(out[out.len() - 1] == x);
                } else {
                    assert(init[k] == x);
                    assert(kept.contains(x));
                    let j = choose|j: int| 0 <= j < kept.len() && kept[j] == x;
                    assert(out[j] == x);
                }
            }
        }
    }
}

/// A file is migrated exactly where it is there, may be migrated, and no Lua file of the
/// same profile displaces it. The files come in the order of their names.
pub proof fn migrated_files_are_those_that_stand(
    names: Seq<Seq<char>>,
    only: Option<Seq<char>>,
)
    ensures
        forall|x: Seq<char>| #[trigger]
            legacy_of(names, only).contains(x) <==> names.contains(x) && is_candidate(x, only)
                && !displaced(x, candidates(names, only)),
        forall|a: int, b: int|
            0 <= a < b < legacy_of(names, only).len() ==> !text::text_less(
                #[trigger] legacy_of(names, only)[b],
                #[trigger] legacy_of(names, only)[a],
            ),
{
    let all = candidates(names, only);
    let sorted = order::sorted_texts(all);
    lemma_filter_keeps(names, wanted(only), |a: Seq<char>, b: Seq<char>| true);
    order::sorted_texts_hold(all);
    lemma_filter_keeps(
        sorted,
        standing(all),
        |a: Seq<char>, b: Seq<char>| !text::text_less(b, a),
    );
    assert forall|x: Seq<char>| #[trigger] legacy_of(names, only).contains(x) implies names.contains(
        x,
    ) && is_candidate(x, only) && !displaced(x, all) by {
        assert(sorted.contains(x));
        assert(all.contains(x));
    }
    assert forall|x: Seq<char>|
        names.contains(x) && is_candidate(x, only) && !displaced(x, all) implies #[trigger] legacy_of(
        names,
        only,
    ).contains(x) by {
        assert(all.contains(x));
        assert(sorted.contains(x));
    }
}

/// No profile is lost: every file that may be migrated has one of its profile among those
/// that are.
pub proof fn every_profile_is_migrated(
    names: Seq<Seq<char>>,
    only: Option<Seq<char>>,
    name: Seq<char>,
)
    requires
        names.contains(name),
        is_candidate(name, only),
    ensures
        exists|k: int|
            0 <= k < legacy_of(names, only).len() && profile_store::stem_of(
                #[trigger] legacy_of(names, only)[k],
            ) == profile_store::stem_of(name),
{
    let all = candidates(names, only);
    let out = legacy_of(names, only);
    migrated_files_are_those_that_stand(names, only);
    let file = if displaced(name, all) {
        let i = choose|i: int|
            0 <= i < all.len() && profile_store::stem_of(#[trigger] all[i])
                == profile_store::stem_of(name) && profile_store::extension_of(all[i]) == Some(
                "lua"@,
            );
        assert(all.contains(all[i]));
        lemma_filter_keeps(names, wanted(only), |a: Seq<char>, b: Seq<char>| true);
        all[i]
    } else {
        name
    };
    assert(out.contains(file));
    let k = choose|k: int| 0 <= k < out.len() && out[k] == file;
    assert(profile_store::stem_of(out[k]) == profile_store::stem_of(name));
}

/// Each profile is migrated from one file only: any two files that are migrated have
/// different stems. A directory holds no name twice.
pub proof fn each_profile_is_migrated_once(
    names: Seq<Seq<char>>,
    only: Option<Seq<char>>,
    a: int,
    b: int,
)
    requires
        names.no_duplicates(),
        0 <= a < b < legacy_of(names, only).len(),
    ensures
        profile_store::stem_of(legacy_of(names, only)[a]) != profile_store::stem_of(
            legacy_of(names, only)[b],
        ),
{
    let all = candidates(names, only);
    let out = legacy_of(names, only);
    let differ = |x: Seq<char>, y: Seq<char>| x != y;
    lemma_filter_keeps(names, wanted(only), differ);
    assert(all.no_duplicates());
    order::sorting_adds_no_repeats(all);
    order::sorted_texts_hold(all);
    lemma_filter_keeps(order::sorted_texts(all), standing(all), differ);
    migrated_files_are_those_that_stand(names, only);
    let (x, y) = (out[a], out[b]);
    assert(differ(x, y));
    assert(out.contains(x) && out.contains(y));
    assert(all.contains(x) && all.contains(y));
    if profile_store::stem_of(x) == profile_store::stem_of(y) {
        let i = choose|i: int| 0 <= i < all.len() && all[i] == x;
        let j = choose|j: int| 0 <= j < all.len() && all[j] == y;
        assert(profile_store::extension_of(x) == Some("lua"@) ==> profile_store::extension_of(y)
            == Some("lua"@)) by {
            assert(profile_store::stem_of(all[i]) == profile_store::stem_of(y));
        }
        assert(profile_store::extension_of(y) == Some("lua"@) ==> profile_store::extension_of(x)
            == Some("lua"@)) by {
            assert(profile_store::stem_of(all[j]) == profile_store::stem_of(x));
        }
        profile_store::stem_and_extension_make_a_name(x, y);
    }
}

/// A Lua file displaces its twin of the other dialect, whatever sorts between them.
pub proof fn lua_displaces_conf(
    names: Seq<Seq<char>>,
    only: Option<Seq<char>>,
    conf: Seq<char>,
    lua: Seq<char>,
)
    requires
        names.contains(lua),
        is_candidate(lua, only),
        profile_store::stem_of(conf) == profile_store::stem_of(lua),
        profile_store::extension_of(lua) == Some("lua"@),
        profile_store::extension_of(conf) != Some("lua"@),
    ensures
        legacy_of(names, only).contains(lua),
        !legacy_of(names, only).contains(conf),
{
    let all = candidates(names, only);
    lemma_filter_keeps(names, wanted(only), |a: Seq<char>, b: Seq<char>| true);
    migrated_files_are_those_that_stand(names, only);
    assert(all.contains(lua));
    let i = choose|i: int| 0 <= i < all.len() && all[i] == lua;
    assert(profile_store::stem_of(all[i]) == profile_store::stem_of(conf));
}

} // verus!
