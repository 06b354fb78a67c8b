//! How the `profile` command goes and ends: its actions, the steps of a migration, and
//! what it returns.
use vstd::prelude::*;

use crate::power_cli::unknown_action;
use crate::profile_cli::Converted;
use crate::text;

verus! {

// ------------------------------------------------------------------------- actions

/// What the command is told to do.
#[derive(Debug, Clone, Copy, PartialEq, Eq, Structural)]
pub enum ProfileAction {
    Save,
    List,
    Current,
    Switch,
    Migrate,
    Verify,
}

/// The action that a word stands for.
pub open spec fn action_of(word: Seq<char>) -> Option<ProfileAction> {
    if word == "save"@ {
        Some(ProfileAction::Save)
    } else if word == "list"@ {
        Some(ProfileAction::List)
    } else if word == "current"@ {
        Some(ProfileAction::Current)
    } else if word == "switch"@ {
        Some(ProfileAction::Switch)
    } else if word == "migrate"@ {
        Some(ProfileAction::Migrate)
    } else if word == "verify"@ {
        Some(ProfileAction::Verify)
    } else {
        None
    }
}

/// The action that a word stands for. A word that is none is answered with a complaint
/// and the code that the command ends with.
pub fn profile_action(word: &str) -> (r: Result<ProfileAction, (String, i32)>)
    ensures
        match action_of(word@) {
            Some(a) => r == Ok::<ProfileAction, (String, i32)>(a),
            None => r matches Err(e) && e.0@ == "unknown action: "@ + word@ && e.1 == 2,
        },
{
    if text::str_eq(word, "save") {
        Ok(ProfileAction::Save)
    } else if text::str_eq(word, "list") {
        Ok(ProfileAction::List)
    } else if text::str_eq(word, "current") {
        Ok(ProfileAction::Current)
    } else if text::str_eq(word, "switch") {
        Ok(ProfileAction::Switch)
    } else if text::str_eq(word, "migrate") {
        Ok(ProfileAction::Migrate)
    } else if text::str_eq(word, "verify") {
        Ok(ProfileAction::Verify)
    } else {
        Err(unknown_action(word))
    }
}

impl ProfileAction {
    /// Whether the action works on the loaded profiles and the live monitors. The others
    /// only read and write files, and work outside a session.
    pub fn needs_live(self) -> (r: bool)
        ensures
            r == (self != ProfileAction::Migrate && self != ProfileAction::Verify),
    {
        match self {
            ProfileAction::Migrate | ProfileAction::Verify => false,
            _ => true,
        }
    }
}

// --------------------------------------------------------------- switching and saving

/// How `profile switch` ends once the link was tried.
pub fn switch_code(linked: bool) -> (r: i32)
    ensures
        r == (if linked {
            0i32
        } else {
            1
        }),
{
    if linked {
        0
    } else {
        1
    }
}

/// What can go wrong once a layout is to be saved.
#[derive(Debug, Clone, Copy, PartialEq, Eq, Structural)]
pub enum SaveFailure {
    Capture,
    Convert,
    Write,
    Render,
}

impl SaveFailure {
    pub open spec fn words(self) -> Seq<char> {
        match self {
            SaveFailure::Capture => "capture failed: "@,
            SaveFailure::Convert => "captured profile could not be converted: "@,
            SaveFailure::Write => "write failed: "@,
            SaveFailure::Render => "render write failed: "@,
        }
    }

    /// What is said of the failure.
    pub fn line(self, error: &str) -> (r: String)
        ensures
            r@ == self.words() + error@,
    {
        let words = match self {
            SaveFailure::Capture => "capture failed: ",
            SaveFailure::Convert => "captured profile could not be converted: ",
            SaveFailure::Write => "write failed: ",
            SaveFailure::Render => "render write failed: ",
        };
        text::concat2(words, error)
    }
}

/// How `profile save` ends once a layout is to be saved.
pub fn save_code(failure: Option<SaveFailure>) -> (r: i32)
    ensures
        r == (if failure is Some {
            1i32
        } else {
            0
        }),
{
    match failure {
        Some(_) => 1,
        None => 0,
    }
}

// ----------------------------------------------------------------------- migrating

/// What became of one file that was to be migrated.
#[derive(Debug, Clone, Copy, PartialEq, Eq, Structural)]
pub enum FileEvent {
    /// There is a profile already.
    Skipped,
    Unreadable,
    Unparsed,
    /// It was converted. Where it was to be written, it is.
    Converted(Converted),
    WriteFailed,
}

impl FileEvent {
    /// The file ends the migration.
    pub open spec fn fails(self) -> bool {
        match self {
            FileEvent::Skipped => false,
            FileEvent::Converted(c) => c == Converted::Refuse,
            _ => true,
        }
    }

    /// The file counts as migrated.
    pub open spec fn counts(self) -> bool {
        self is Converted && !self.fails()
    }
}

/// How far a migration has come.
#[derive(Debug, Clone, Copy, PartialEq, Eq, Structural)]
pub enum Progress {
    /// So many files are left, and so many were converted.
    Going { left: usize, converted: usize },
    /// A dry run is through: so many would be migrated.
    Told { converted: usize },
    /// All is written, and is compared next.
    Verify,
    /// A file could not be migrated, and those behind it are left alone.
    Failed,
}

impl Progress {
    /// The files can be counted.
    pub open spec fn wf(self) -> bool {
        self matches Progress::Going { left, converted } ==> left > 0 && left + converted
            <= usize::MAX
    }

    /// How the command ends. `None` where it goes on.
    pub open spec fn ending(self) -> Option<i32> {
        match self {
            Progress::Told { converted } => Some(0i32),
            Progress::Failed => Some(1i32),
            _ => None,
        }
    }

    /// How the command ends. `None` where it goes on: with the next file, or with the
    /// comparison, which then decides.
    pub fn code(self) -> (r: Option<i32>)
        ensures
            r == self.ending(),
    {
        match self {
            Progress::Told { converted } => Some(0),
            Progress::Failed => Some(1),
            _ => None,
        }
    }
}

/// A migration with so many files left and so many converted.
pub open spec fn counted(left: int, converted: int, dry_run: bool) -> Progress {
    if left > 0 {
        Progress::Going { left: left as usize, converted: converted as usize }
    } else if dry_run {
        Progress::Told { converted: converted as usize }
    } else {
        Progress::Verify
    }
}

fn count(left: usize, converted: usize, dry_run: bool) -> (r: Progress)
    ensures
        r == counted(left as int, converted as int, dry_run),
{
    if left > 0 {
        Progress::Going { left, converted }
    } else if dry_run {
        Progress::Told { converted }
    } else {
        Progress::Verify
    }
}

/// The start of a migration of so many files.
pub fn start_migration(files: usize, dry_run: bool) -> (r: Progress)
    ensures
        r == counted(files as int, 0, dry_run),
        r.wf(),
{
    count(files, 0, dry_run)
}

/// The migration after one more file.
pub open spec fn progressed(p: Progress, ev: FileEvent, dry_run: bool) -> Progress {
    match p {
        Progress::Going { left, converted } => if ev.fails() {
            Progress::Failed
        } else if ev.counts() {
            counted(left - 1, converted + 1, dry_run)
        } else {
            counted(left - 1, converted as int, dry_run)
        },
        _ => p,
    }
}

/// Goes on with what became of the next file: the first that cannot be migrated ends it,
/// a dry run ends well with its count, and all else ends in the comparison.
pub fn migrate_step(p: Progress, ev: FileEvent, dry_run: bool) -> (r: Progress)
    requires
        p.wf(),
    ensures
        r == progressed(p, ev, dry_run),
        r.wf(),
{
    match p {
        Progress::Going { left, converted } => match ev {
            FileEvent::Skipped => count(left - 1, converted, dry_run),
            FileEvent::Converted(c) => {
                if c.code() == 0 {
                    count(left - 1, converted + 1, dry_run)
                } else {
                    Progress::Failed
                }
            },
            _ => Progress::Failed,
        },
        _ => p,
    }
}

// ------------------------------------------------------------------------- laws

/// The migration after the files so far.
pub open spec fn progress_after(p: Progress, evs: Seq<FileEvent>, dry_run: bool) -> Progress
    decreases evs.len(),
{
    if evs.len() == 0 {
        p
    } else {
        progressed(progress_after(p, evs.drop_last(), dry_run), evs.last(), dry_run)
    }
}

/// How many files were migrated.
pub open spec fn migrated(evs: Seq<FileEvent>) -> nat
    decreases evs.len(),
{
    if evs.len() == 0 {
        0
    } else {
        migrated(evs.drop_last()) + (if evs.last().counts() {
            1nat
        } else {
            0
        })
    }
}

proof fn lemma_progress(files: usize, evs: Seq<FileEvent>, dry_run: bool)
    requires
        evs.len() <= files,
    ensures
        migrated(evs) <= evs.len(),
        progress_after(counted(files as int, 0, dry_run), evs, dry_run) == (if exists|i: int|
            0 <= i < evs.len() && (#[trigger] evs[i]).fails() {
            Progress::Failed
        } else {
            counted(files - evs.len(), migrated(evs) as int, dry_run)
        }),
    decreases evs.len(),
{
    if evs.len() > 0 {
        let before = evs.drop_last();
        lemma_progress(files, before, dry_run);
        if evs.last().fails() {
            assert(evs[evs.len() - 1].fails());
        }
        if exists|i: int| 0 <= i < before.len() && (#[trigger] before[i]).fails() {
            let i = choose|i: int| 0 <= i < before.len() && (#[trigger] before[i]).fails();
            assert(evs[i].fails());
        }
        if exists|i: int| 0 <= i < evs.len() && (#[trigger] evs[i]).fails() {
            let i = choose|i: int| 0 <= i < evs.len() && (#[trigger] evs[i]).fails();
            if i < before.len() {
                assert(before[i].fails());
            }
        }
    }
}

/// A migration that has looked at all its files fails with 1 where one of them could not
/// be migrated. Otherwise a dry run ends with 0 and tells how many would be migrated, and
/// a real one goes on to compare what it wrote.
pub proof fn migrations_end_by_their_files(evs: Seq<FileEvent>, dry_run: bool)
    requires
        evs.len() <= usize::MAX,
    ensures
        ({
            let end = progress_after(counted(evs.len() as int, 0, dry_run), evs, dry_run);
            let failed = exists|i: int| 0 <= i < evs.len() && (#[trigger] evs[i]).fails();
            &&& failed ==> end.ending() == Some(1i32)
            &&& !failed && dry_run ==> end.ending() == Some(0i32) && end == (Progress::Told {
                converted: migrated(evs) as usize,
            })
            &&& !failed && !dry_run ==> end == Progress::Verify
        }),
{
    lemma_progress(evs.len() as usize, evs, dry_run);
}

/// The first file that cannot be migrated ends the migration there and then, with 1.
pub proof fn the_first_failure_stops(files: usize, evs: Seq<FileEvent>, ev: FileEvent, dry_run: bool)
    requires
        evs.len() < files,
        forall|i: int| 0 <= i < evs.len() ==> !(#[trigger] evs[i]).fails(),
        ev.fails(),
    ensures
        progress_after(counted(files as int, 0, dry_run), evs, dry_run).ending() is None,
        progress_after(counted(files as int, 0, dry_run), evs.push(ev), dry_run).ending() == Some(
            1i32,
        ),
{
    lemma_progress(files, evs, dry_run);
    assert(evs.push(ev).drop_last() =~= evs);
}

} // verus!
