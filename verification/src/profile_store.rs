//! Where monitor profiles come from, and the links to the one in force.
use vstd::prelude::*;

use crate::json;
use crate::order;
use crate::paths;
use crate::profiles;
use crate::toml_profile;
use crate::toml_profile::{TomlProfile, TomlView};
use crate::telemetry;
use crate::telemetry::{mix, mix_text, HASH_START};
use crate::text;

verus! {

// --------------------------------------------------------------------- file names

/// How many characters stand before the last dot of a file name. `None` where there is
/// no dot, or only one in front.
pub open spec fn dot_at(name: Seq<char>) -> Option<int> {
    let tail = text::tail_len(name, '.') as int;
    if tail < name.len() && name.len() - tail - 1 > 0 {
        Some(name.len() - tail - 1)
    } else {
        None
    }
}

/// The extension of a file name.
pub open spec fn extension_of(name: Seq<char>) -> Option<Seq<char>> {
    match dot_at(name) {
        Some(n) => Some(name.skip(n + 1)),
        None => None,
    }
}

/// A file name without its extension.
pub open spec fn stem_of(name: Seq<char>) -> Seq<char> {
    match dot_at(name) {
        Some(n) => name.take(n),
        None => name,
    }
}

proof fn lemma_tail_len_bound(s: Seq<char>, c: char)
    ensures
        text::tail_len(s, c) <= s.len(),
    decreases s.len(),
{
    if s.len() > 0 {
        lemma_tail_len_bound(s.drop_last(), c);
    }
}

proof fn lemma_before_the_tail(s: Seq<char>, c: char)
    requires
        text::tail_len(s, c) < s.len(),
    ensures
        s[s.len() - text::tail_len(s, c) - 1] == c,
    decreases s.len(),
{
    if s.last() != c {
        lemma_before_the_tail(s.drop_last(), c);
    }
}

/// Two file names with the same stem and the same extension are the same.
pub proof fn stem_and_extension_make_a_name(a: Seq<char>, b: Seq<char>)
    requires
        stem_of(a) == stem_of(b),
        extension_of(a) == extension_of(b),
        extension_of(a) is Some,
    ensures
        a == b,
{
    lemma_before_the_tail(a, '.');
    lemma_before_the_tail(b, '.');
    let n = dot_at(a)->0;
    assert(stem_of(a).len() == n && stem_of(b).len() == dot_at(b)->0);
    assert(a =~= stem_of(a).push('.') + extension_of(a)->0);
    assert(b =~= stem_of(b).push('.') + extension_of(b)->0);
}

/// How many characters stand before the last dot of a file name.
fn find_dot(name: &str) -> (r: Option<usize>)
    ensures
        match r {
            Some(n) => dot_at(name@) == Some(n as int) && n + 1 <= name@.len(),
            None => dot_at(name@) is None,
        },
{
    let tail = text::last_piece(name, '.');
    let n = name.unicode_len();
    let t = tail.unicode_len();
    proof {
        lemma_tail_len_bound(name@, '.');
    }
    if t < n && n - t - 1 > 0 {
        Some(n - t - 1)
    } else {
        None
    }
}

/// The extension of a file name.
pub fn extension(name: &str) -> (r: Option<&str>)
    ensures
        text::opt_str(r) == extension_of(name@),
{
    match find_dot(name) {
        Some(n) => {
            let total = name.unicode_len();
            assert(n < total);
            let r = name.substring_char(n + 1, total);
            assert(r@ =~= name@.skip(n + 1));
            Some(r)
        },
        None => None,
    }
}

/// A file name without its extension.
pub fn file_stem(name: &str) -> (r: &str)
    ensures
        r@ == stem_of(name@),
{
    match find_dot(name) {
        Some(n) => name.substring_char(0, n),
        None => name,
    }
}

// -------------------------------------------------------------------------- paths

/// A path without what follows its last component: separators, and dots that stand for
/// the directory they are in.
pub open spec fn without_tail(path: Seq<char>) -> Seq<char>
    decreases path.len(),
{
    if path.len() > 0 && path.last() == '/' {
        without_tail(path.drop_last())
    } else if path.len() > 1 && path.last() == '.' && path[path.len() - 2] == '/' {
        without_tail(path.drop_last())
    } else {
        path
    }
}

/// The file name of a path, as `std::path::Path::file_name` has it: its last component.
/// `None` for the root, and where a path ends in a directory that is only pointed at.
pub open spec fn file_name_of(path: Seq<char>) -> Option<Seq<char>> {
    let name = text::after_last(without_tail(path), '/');
    if name.len() == 0 || name == "."@ || name == ".."@ {
        None
    } else {
        Some(name)
    }
}

/// The extension of the file that a path names.
pub open spec fn path_extension_of(path: Seq<char>) -> Option<Seq<char>> {
    match file_name_of(path) {
        Some(name) => extension_of(name),
        None => None,
    }
}

/// The name of the file that a path names, without its extension.
pub open spec fn path_stem_of(path: Seq<char>) -> Option<Seq<char>> {
    match file_name_of(path) {
        Some(name) => Some(stem_of(name)),
        None => None,
    }
}

fn trim_tail(path: &str) -> (r: &str)
    ensures
        r@ == without_tail(path@),
{
    let v = text::chars(path);
    let mut k: usize = v.len();
    assert(path@.take(k as int) =~= path@);
    while k > 0 && (v[k - 1] == '/' || (k > 1 && v[k - 1] == '.' && v[k - 2] == '/'))
        invariant
            v@ == path@,
            k <= v@.len(),
            without_tail(path@) == without_tail(path@.take(k as int)),
        decreases k,
    {
        assert(path@.take(k as int).drop_last() =~= path@.take(k - 1));
        k -= 1;
    }
    path.substring_char(0, k)
}

/// The file name of a path.
pub fn file_name(path: &str) -> (r: Option<&str>)
    ensures
        text::opt_str(r) == file_name_of(path@),
{
    let name = text::last_piece(trim_tail(path), '/');
    if name.unicode_len() == 0 || text::str_eq(name, ".") || text::str_eq(name, "..") {
        None
    } else {
        Some(name)
    }
}

fn path_extension(path: &str) -> (r: Option<&str>)
    ensures
        text::opt_str(r) == path_extension_of(path@),
{
    match file_name(path) {
        Some(name) => extension(name),
        None => None,
    }
}

fn path_stem(path: &str) -> (r: Option<&str>)
    ensures
        text::opt_str(r) == path_stem_of(path@),
{
    match file_name(path) {
        Some(name) => Some(file_stem(name)),
        None => None,
    }
}

/// A path with another extension, as `std::path::PathBuf::set_extension` has it: the path
/// ends behind the file name, an empty extension takes the dot along, and a path without
/// a file name stays as it is.
pub open spec fn with_extension_of(path: Seq<char>, ext: Seq<char>) -> Seq<char> {
    match file_name_of(path) {
        Some(name) => {
            let whole = without_tail(path);
            whole.take(whole.len() - name.len()) + stem_of(name) + (if ext.len() == 0 {
                seq![]
            } else {
                "."@ + ext
            })
        },
        None => path,
    }
}

fn change_extension(path: &str, ext: &str) -> (r: String)
    ensures
        r@ == with_extension_of(path@, ext@),
{
    match file_name(path) {
        Some(name) => {
            let whole = trim_tail(path);
            proof {
                lemma_tail_len_bound(whole@, '/');
            }
            let dir = whole.substring_char(0, whole.unicode_len() - name.unicode_len());
            let mut out = text::concat2(dir, file_stem(name));
            if ext.unicode_len() > 0 {
                out.append(text::concat2(".", ext).as_str());
            }
            assert(out@ =~= with_extension_of(path@, ext@));
            out
        },
        None => String::from_str(path),
    }
}

/// A path with another extension. An extension holds no separator.
pub fn with_extension(path: &str, ext: &str) -> (r: String)
    requires
        !ext@.contains('/'),
    ensures
        r@ == with_extension_of(path@, ext@),
{
    change_extension(path, ext)
}

// ----------------------------------------------------------------------- dialects

/// The dialect of a file that the compositor reads.
#[derive(Debug, Clone, Copy, PartialEq, Eq, Structural)]
pub enum ProfileFormat {
    Conf,
    Lua,
}

impl ProfileFormat {
    pub open spec fn suffix(self) -> Seq<char> {
        match self {
            ProfileFormat::Conf => "conf"@,
            ProfileFormat::Lua => "lua"@,
        }
    }

    /// The extension of files in this dialect.
    pub fn ext(self) -> (r: &'static str)
        ensures
            r@ == self.suffix(),
    {
        match self {
            ProfileFormat::Conf => "conf",
            ProfileFormat::Lua => "lua",
        }
    }

    pub open spec fn twin_of(self) -> ProfileFormat {
        match self {
            ProfileFormat::Conf => ProfileFormat::Lua,
            ProfileFormat::Lua => ProfileFormat::Conf,
        }
    }

    /// The other dialect.
    pub fn twin(self) -> (r: ProfileFormat)
        ensures
            r == self.twin_of(),
    {
        match self {
            ProfileFormat::Conf => ProfileFormat::Lua,
            ProfileFormat::Lua => ProfileFormat::Conf,
        }
    }
}

/// The dialect that profiles are rendered in.
pub fn config_dialect() -> (r: ProfileFormat)
    ensures
        r == ProfileFormat::Lua,
{
    ProfileFormat::Lua
}

/// The dialect of a file, by the extension of its name.
pub open spec fn dialect_of(name: Seq<char>) -> Option<ProfileFormat> {
    match extension_of(name) {
        Some(e) => if e == "conf"@ {
            Some(ProfileFormat::Conf)
        } else if e == "lua"@ {
            Some(ProfileFormat::Lua)
        } else {
            None
        },
        None => None,
    }
}

/// The dialect of a file, by the extension of its name.
pub fn dialect(name: &str) -> (r: Option<ProfileFormat>)
    ensures
        r == dialect_of(name@),
{
    match extension(name) {
        Some(e) => {
            if text::str_eq(e, "conf") {
                Some(ProfileFormat::Conf)
            } else if text::str_eq(e, "lua") {
                Some(ProfileFormat::Lua)
            } else {
                None
            }
        },
        None => None,
    }
}

/// The dialect of the file that a path names.
pub open spec fn path_dialect_of(path: Seq<char>) -> Option<ProfileFormat> {
    match file_name_of(path) {
        Some(name) => dialect_of(name),
        None => None,
    }
}

/// The dialect of the file that a path names.
pub fn format_of(path: &str) -> (r: Option<ProfileFormat>)
    ensures
        r == path_dialect_of(path@),
{
    match file_name(path) {
        Some(name) => dialect(name),
        None => None,
    }
}

// ------------------------------------------------------------------------- legacy

/// A file of the profiles directory.
#[derive(Debug)]
pub struct LegacyEntry {
    pub name: String,
    /// `None` where it cannot be read.
    pub content: Option<String>,
}

impl LegacyEntry {
    /// A profile that was written by hand in a dialect of the compositor. Rendered files
    /// say that they are not to be edited.
    pub open spec fn is_legacy(self) -> bool {
        &&& dialect_of(self.name@) is Some
        &&& !text::has_prefix(self.name@, "."@)
        &&& self.content matches Some(c) && !text::has_part(c@, "Do not edit"@)
    }
}

/// Whether a directory holds profiles that were written by hand in a dialect of the
/// compositor.
pub fn dir_has_legacy(entries: &Vec<LegacyEntry>) -> (r: bool)
    ensures
        r == exists|i: int| 0 <= i < entries@.len() && (#[trigger] entries@[i]).is_legacy(),
{
    let mut i: usize = 0;
    while i < entries.len()
        invariant
            i <= entries@.len(),
            forall|k: int| 0 <= k < i ==> !(#[trigger] entries@[k]).is_legacy(),
        decreases entries@.len() - i,
    {
        let e = &entries[i];
        let edited = match &e.content {
            Some(c) => !text::contains(c.as_str(), "Do not edit"),
            None => false,
        };
        if dialect(e.name.as_str()).is_some() && !text::starts_with(e.name.as_str(), ".") && edited {
            assert(entries@[i as int].is_legacy());
            return true;
        }
        i += 1;
    }
    false
}

/// The warning about a directory that holds only profiles of the former kind.
pub fn legacy_warning(dir: &str, loaded: usize, legacy: bool) -> (r: Option<String>)
    ensures
        text::opt_string(r) == if loaded == 0 && legacy {
            Some(
                dir@ + ": found legacy .conf/.lua profiles but no .toml; run `hyprstate profile migrate` (TOML is the source of truth)"@,
            )
        } else {
            None
        },
{
    if loaded == 0 && legacy {
        Some(
            text::concat2(
                dir,
                ": found legacy .conf/.lua profiles but no .toml; run `hyprstate profile migrate` (TOML is the source of truth)",
            ),
        )
    } else {
        None
    }
}

// ------------------------------------------------------------------------- merging

/// Some profile of a list has the name.
pub open spec fn has_name(list: Seq<TomlView>, name: Seq<char>) -> bool {
    exists|i: int| 0 <= i < list.len() && (#[trigger] list[i]).inner.name == name
}

/// The profiles of the user, and behind them those of the system whose names are still
/// free.
pub open spec fn merged(user: Seq<TomlView>, system: Seq<TomlView>) -> Seq<TomlView>
    decreases system.len(),
{
    if system.len() == 0 {
        user
    } else {
        let m = merged(user, system.drop_last());
        if has_name(m, system.last().inner.name) {
            m
        } else {
            m.push(system.last())
        }
    }
}

fn name_taken(list: &Vec<TomlProfile>, name: &str) -> (r: bool)
    ensures
        r == has_name(toml_profile::views(list@), name@),
{
    let ghost all = toml_profile::views(list@);
    let mut i: usize = 0;
    while i < list.len()
        invariant
            i <= list@.len(),
            all == toml_profile::views(list@),
            forall|k: int| 0 <= k < i ==> (#[trigger] all[k]).inner.name != name@,
        decreases list@.len() - i,
    {
        assert(all[i as int] == list@[i as int]@);
        if text::str_eq(list[i].inner.name.as_str(), name) {
            return true;
        }
        i += 1;
    }
    false
}

/// Merges the profiles of the user with those of the system. A profile of the user
/// displaces one of the system with the same name.
pub fn load_profiles_merged(user: Vec<TomlProfile>, system: &Vec<TomlProfile>) -> (r: Vec<TomlProfile>)
    ensures
        toml_profile::views(r@) == merged(toml_profile::views(user@), toml_profile::views(system@)),
{
    let ghost mine = toml_profile::views(user@);
    let ghost theirs = toml_profile::views(system@);
    let mut out = user;
    let mut i: usize = 0;
    assert(theirs.take(0) =~= Seq::<TomlView>::empty());
    while i < system.len()
        invariant
            i <= system@.len(),
            theirs == toml_profile::views(system@),
            toml_profile::views(out@) == merged(mine, theirs.take(i as int)),
        decreases system@.len() - i,
    {
        proof {
            assert(theirs.take(i + 1).drop_last() =~= theirs.take(i as int));
            assert(theirs.take(i + 1).last() == system@[i as int]@);
        }
        if !name_taken(&out, system[i].inner.name.as_str()) {
            let ghost before = toml_profile::views(out@);
            out.push(system[i].clone());
            assert(toml_profile::views(out@) =~= before.push(system@[i as int]@));
        }
        i += 1;
    }
    assert(theirs.take(theirs.len() as int) =~= theirs);
    out
}

// ---------------------------------------------------------------------- active links

/// The name that the target of a link gives.
pub open spec fn linked_name(target: Option<Seq<char>>) -> Option<Seq<char>> {
    match target {
        Some(path) => path_stem_of(path),
        None => None,
    }
}

/// The name of the profile in force: what the link of the Lua dialect leads to, or else
/// that of the other. `None` where there is no link, or it leads nowhere.
pub fn active_profile_name(lua: Option<&str>, conf: Option<&str>) -> (r: Option<String>)
    ensures
        text::opt_string(r) == (match linked_name(text::opt_str(lua)) {
            Some(n) => Some(n),
            None => linked_name(text::opt_str(conf)),
        }),
{
    if let Some(path) = lua {
        if let Some(n) = path_stem(path) {
            return Some(String::from_str(n));
        }
    }
    match conf {
        Some(path) => match path_stem(path) {
            Some(n) => Some(String::from_str(n)),
            None => None,
        },
        None => None,
    }
}

/// A link to be set.
#[derive(Debug)]
pub struct Repoint {
    pub format: ProfileFormat,
    pub target: String,
}

/// What a [`Repoint`] holds.
pub struct RepointView {
    pub format: ProfileFormat,
    pub target: Seq<char>,
}

impl View for Repoint {
    type V = RepointView;

    open spec fn view(&self) -> RepointView {
        RepointView { format: self.format, target: self.target@ }
    }
}

pub open spec fn repoint_views(s: Seq<Repoint>) -> Seq<RepointView> {
    Seq::new(s.len(), |i: int| s[i]@)
}

/// The links to be set for a target: that of its dialect, and that of the other dialect
/// where the profile exists in it too, so that the compositor sees the switch whichever
/// it reads.
pub open spec fn repointing(target: Seq<char>, twin_exists: bool) -> Option<Seq<RepointView>> {
    match path_dialect_of(target) {
        Some(format) => Some(
            seq![RepointView { format, target }] + if twin_exists {
                seq![
                    RepointView {
                        format: format.twin_of(),
                        target: with_extension_of(target, format.twin_of().suffix()),
                    },
                ]
            } else {
                seq![]
            },
        ),
        None => None,
    }
}

/// The same profile in the other dialect; `None` for a file in no dialect.
pub fn twin_path(target: &str) -> (r: Option<String>)
    ensures
        text::opt_string(r) == (match path_dialect_of(target@) {
            Some(format) => Some(with_extension_of(target@, format.twin_of().suffix())),
            None => None,
        }),
{
    match format_of(target) {
        Some(format) => Some(change_extension(target, format.twin().ext())),
        None => None,
    }
}

/// Works out the links to be set for a target, or the complaint about a target in no
/// dialect.
pub fn repoint_active_profile(target: &str, twin_exists: bool) -> (r: Result<Vec<Repoint>, String>)
    ensures
        match r {
            Ok(v) => repointing(target@, twin_exists) == Some(repoint_views(v@)),
            Err(m) => repointing(target@, twin_exists) is None && m@
                == "profile target has no .conf/.lua extension: "@ + target@,
        },
{
    let format = match format_of(target) {
        Some(f) => f,
        None => {
            return Err(text::concat2("profile target has no .conf/.lua extension: ", target));
        },
    };
    let mut out: Vec<Repoint> = Vec::new();
    out.push(Repoint { format, target: String::from_str(target) });
    if twin_exists {
        let twin = format.twin();
        out.push(Repoint { format: twin, target: change_extension(target, twin.ext()) });
    }
    assert(repoint_views(out@) =~= repointing(target@, twin_exists)->0);
    Ok(out)
}

/// The rendered file of a profile.
pub fn rendered_path(dir: &str, name: &str, format: ProfileFormat) -> (r: String)
    ensures
        r@ == paths::joined(dir@, name@ + "."@ + format.suffix()),
{
    paths::join(dir, text::concat3(name, ".", format.ext()).as_str())
}

/// Whether a file has to be written to hold some content.
pub fn needs_write(current: Option<&str>, content: &str) -> (r: bool)
    ensures
        r == (text::opt_str(current) != Some(content@)),
{
    match current {
        Some(c) => !text::str_eq(c, content),
        None => true,
    }
}

/// The file that content goes to before it takes the place of another.
pub fn temporary_path(path: &str, pid: u32) -> (r: String)
    ensures
        r@ == with_extension_of(
            path@,
            (match path_extension_of(path@) {
                Some(e) => e,
                None => seq![],
            }) + ".tmp-"@ + crate::number::decimal(pid as nat),
        ),
{
    let ext = match path_extension(path) {
        Some(e) => String::from_str(e),
        None => {
            let empty = String::new();
            assert(empty@ =~= seq![]);
            empty
        },
    };
    let number = crate::number::u64_text(pid as u64);
    let full = text::concat3(ext.as_str(), ".tmp-", number.as_str());
    change_extension(path, full.as_str())
}

// ---------------------------------------------------------------------- signature

/// The descriptions in the compositor's list of monitors.
pub open spec fn descriptions_of(rows: Seq<json::Json>) -> Seq<Seq<char>> {
    Seq::new(
        rows.len(),
        |i: int|
            match rows[i].text_at("description"@) {
                Some(d) => d,
                None => seq![],
            },
    )
}

/// The descriptions in the compositor's list of monitors.
pub fn signature_in(rows: &Vec<serde_json::Value>) -> (r: Vec<String>)
    ensures
        text::strings(r@) == descriptions_of(json::jsons(rows@)),
{
    let ghost all = json::jsons(rows@);
    let ghost want = descriptions_of(all);
    let mut out: Vec<String> = Vec::new();
    let mut i: usize = 0;
    while i < rows.len()
        invariant
            i <= rows@.len(),
            all == json::jsons(rows@),
            want == descriptions_of(all),
            out@.len() == i,
            forall|k: int| 0 <= k < i ==> (#[trigger] out@[k])@ == want[k],
        decreases rows@.len() - i,
    {
        assert(all[i as int] == json::json_of(rows@[i as int]));
        match json::text_at(&rows[i], "description") {
            Some(d) => {
                out.push(String::from_str(d));
            },
            None => {
                let empty = String::new();
                assert(empty@ =~= seq![]);
                out.push(empty);
            },
        }
        i += 1;
    }
    assert(text::strings(out@) =~= want);
    out
}

/// The signature in the compositor's answer; empty where the answer is no list.
pub fn monitor_signature(reply: &[u8]) -> (r: Vec<String>)
    ensures
        text::strings(r@) == (match json::parsed_json(reply@) {
            Some(doc) => match doc {
                json::Json::List(rows) => descriptions_of(rows),
                _ => seq![],
            },
            None => seq![],
        }),
{
    let none: Vec<String> = Vec::new();
    assert(text::strings(none@) =~= seq![]);
    match json::parse(reply) {
        Ok(doc) => match json::elements(&doc) {
            Some(rows) => signature_in(rows),
            None => none,
        },
        Err(_) => none,
    }
}

// --------------------------------------------------------------------- fingerprint

/// A file of a directory that profiles come from.
#[derive(Debug)]
pub struct SourceFile {
    pub path: String,
    /// Its length, and when it was changed, in seconds and nanoseconds. `None` where it
    /// cannot be told.
    pub len: Option<u64>,
    pub modified: Option<(u64, u32)>,
}

/// What a [`SourceFile`] holds.
pub struct SourceView {
    pub path: Seq<char>,
    pub len: Option<u64>,
    pub modified: Option<(u64, u32)>,
}

impl View for SourceFile {
    type V = SourceView;

    open spec fn view(&self) -> SourceView {
        SourceView { path: self.path@, len: self.len, modified: self.modified }
    }
}

pub open spec fn source_views(s: Seq<SourceFile>) -> Seq<SourceView> {
    Seq::new(s.len(), |i: int| s[i]@)
}

/// The order of positions by the paths there.
pub open spec fn by_source(files: Seq<SourceView>) -> spec_fn(int, int) -> bool {
    |a: int, b: int| text::text_less(files[a].path, files[b].path)
}

/// The hash with one more file. Only profiles count.
pub open spec fn hash_file(h: u64, f: SourceView) -> u64 {
    if path_extension_of(f.path) != Some("toml"@) {
        h
    } else {
        let named = telemetry::hash_text(h, f.path);
        match f.len {
            Some(n) => {
                let sized = telemetry::mixed(named, n);
                match f.modified {
                    Some(t) => telemetry::mixed(telemetry::mixed(sized, t.0), t.1 as u64),
                    None => sized,
                }
            },
            None => named,
        }
    }
}

pub open spec fn hash_files(h: u64, files: Seq<SourceView>) -> u64
    decreases files.len(),
{
    if files.len() == 0 {
        h
    } else {
        hash_file(hash_files(h, files.drop_last()), files.last())
    }
}

/// The hash with one more directory. Its files count in the order of their paths.
pub open spec fn hash_dir(h: u64, dir: Seq<char>, files: Seq<SourceView>) -> u64 {
    let at = order::order(by_source(files), files.len() as int);
    hash_files(
        telemetry::hash_text(h, dir),
        Seq::new(files.len(), |i: int| files[at[i]]),
    )
}

fn mix_file(h: u64, f: &SourceFile) -> (r: u64)
    ensures
        r == hash_file(h, f@),
{
    let counts = match path_extension(f.path.as_str()) {
        Some(e) => text::str_eq(e, "toml"),
        None => false,
    };
    if !counts {
        return h;
    }
    let named: u64 = mix_text(h, f.path.as_str());
    match f.len {
        Some(n) => {
            let sized: u64 = mix(named, n);
            match f.modified {
                Some(t) => mix(mix(sized, t.0), t.1 as u64),
                None => sized,
            }
        },
        None => named,
    }
}

fn mix_dir(h: u64, dir: &str, files: &Vec<SourceFile>) -> (r: u64)
    ensures
        r == hash_dir(h, dir@, source_views(files@)),
{
    let ghost all = source_views(files@);
    let f = |a: usize, b: usize| -> (c: bool)
        requires
            a < files@.len(),
            b < files@.len(),
        ensures
            c == text::text_less(files@[a as int].path@, files@[b as int].path@),
        { text::less(files[a].path.as_str(), files[b].path.as_str()) };
    let at = order::sort_positions(files.len(), f, Ghost(by_source(all)));
    let ghost start = telemetry::hash_text(h, dir@);
    let ghost sorted = Seq::new(
        all.len(),
        |i: int| all[order::order(by_source(all), all.len() as int)[i]],
    );
    let mut r: u64 = mix_text(h, dir);
    let mut i: usize = 0;
    while i < at.len()
        invariant
            i <= at@.len(),
            at@.len() == files@.len(),
            all == source_views(files@),
            order::positions(at@) == order::order(by_source(all), files@.len() as int),
            sorted == Seq::new(
                all.len(),
                |i: int| all[order::order(by_source(all), all.len() as int)[i]],
            ),
            forall|k: int| 0 <= k < at@.len() ==> (#[trigger] at@[k]) < files@.len(),
            r == hash_files(start, sorted.take(i as int)),
        decreases at@.len() - i,
    {
        proof {
            assert(order::positions(at@)[i as int] == at@[i as int] as int);
            assert(sorted[i as int] == files@[at@[i as int] as int]@);
            assert(sorted.take(i + 1).drop_last() =~= sorted.take(i as int));
            assert(sorted.take(i + 1).last() == sorted[i as int]);
        }
        r = mix_file(r, &files[at[i]]);
        i += 1;
    }
    assert(sorted.take(sorted.len() as int) =~= sorted);
    r
}

/// A fingerprint of the directories that profiles come from, those of the system first:
/// it tells cheaply whether something may have changed.
pub fn profiles_source_fingerprint(
    system: &str,
    system_files: &Vec<SourceFile>,
    user: &str,
    user_files: &Vec<SourceFile>,
) -> (r: u64)
    ensures
        r == hash_dir(
            hash_dir(HASH_START, system@, source_views(system_files@)),
            user@,
            source_views(user_files@),
        ),
{
    let h: u64 = mix_dir(HASH_START, system, system_files);
    mix_dir(h, user, user_files)
}

// ------------------------------------------------------------------------- laws

/// A profile of the user is never displaced, and none gets lost.
pub proof fn user_profiles_win(user: Seq<TomlView>, system: Seq<TomlView>)
    ensures
        merged(user, system).len() >= user.len(),
        merged(user, system).take(user.len() as int) =~= user,
    decreases system.len(),
{
    if system.len() > 0 {
        user_profiles_win(user, system.drop_last());
        let m = merged(user, system.drop_last());
        assert(m.push(system.last()).take(user.len() as int) =~= m.take(user.len() as int));
    }
}

/// Every name of the system is there after merging.
pub proof fn merging_loses_no_name(user: Seq<TomlView>, system: Seq<TomlView>, i: int)
    requires
        0 <= i < system.len(),
    ensures
        has_name(merged(user, system), system[i].inner.name),
    decreases system.len(),
{
    let m = merged(user, system.drop_last());
    let all = merged(user, system);
    if i == system.len() - 1 {
        if !has_name(m, system.last().inner.name) {
            assert(all[m.len() as int].inner.name == system[i].inner.name);
        }
    } else {
        merging_loses_no_name(user, system.drop_last(), i);
        let k = choose|k: int| 0 <= k < m.len() && (#[trigger] m[k]).inner.name == system[i].inner.name;
        assert(all[k].inner.name == system[i].inner.name);
    }
}

/// The names stay distinct: where those of the user are, those after merging are.
pub proof fn merged_names_are_distinct(user: Seq<TomlView>, system: Seq<TomlView>)
    requires
        forall|i: int, j: int| 0 <= i < j < user.len() ==> (#[trigger] user[i]).inner.name != (
        #[trigger] user[j]).inner.name,
    ensures
        forall|i: int, j: int|
            0 <= i < j < merged(user, system).len() ==> (#[trigger] merged(user, system)[i]).inner.name != (
            #[trigger] merged(user, system)[j]).inner.name,
    decreases system.len(),
{
    if system.len() > 0 {
        merged_names_are_distinct(user, system.drop_last());
        let m = merged(user, system.drop_last());
        let all = merged(user, system);
        if !has_name(m, system.last().inner.name) {
            assert forall|i: int, j: int| 0 <= i < j < all.len() implies (#[trigger] all[i]).inner.name != (
            #[trigger] all[j]).inner.name by {
                assert(all[i] == m[i]);
                if j < m.len() {
                    assert(all[j] == m[j]);
                }
            }
        }
    }
}

/// Without profiles of the system those of the user are all there is.
pub proof fn no_system_profiles_change_nothing(user: Seq<TomlView>)
    ensures
        merged(user, seq![]) == user,
{
}

/// The twin of a twin is the profile itself, for a target in a dialect.
pub proof fn twins_are_mutual(f: ProfileFormat)
    ensures
        f.twin_of().twin_of() == f,
        f.twin_of() != f,
{
}

} // verus!
