//! The profiles on disk: their names and files, what is migrated, written and compared.
use vstd::prelude::*;

use crate::json;
use crate::laws::texts;
use crate::number;
use crate::order;
use crate::profile_cli;
use crate::profile_cli::{Comparable, Complaint, Converted, SaveCheck, SaveOpts, Verification};
use crate::profile_command;
use crate::profile_command::{FileEvent, ProfileAction, Progress};
use crate::profile_store;
use crate::profile_store::{LegacyEntry, ProfileFormat, RepointView};
use crate::profile_toml;
use crate::profile_toml::{DocView, MonitorView, WorkspaceView};
use crate::profile_verify;
use crate::profile_verify::{OutputView, SideView};
use crate::profiles;
use crate::profiles::{EdpPolicy, GpuPref, ProfileView};
use crate::text;
use crate::toml_profile::TomlView;

verus! {

// ------------------------------------------------------------------------------ names

/// A name is made of letters, digits, hyphens, underscores and dots, and does not start
/// with a dot.
pub proof fn names_are_plain_words(name: Seq<char>, c: char, i: int)
    requires
        0 <= i < name.len(),
        name[i] == c,
    ensures
        ({
            let n = c as u32;
            let plain = 97 <= n <= 122 || 65 <= n <= 90 || 48 <= n <= 57 || c == '-' || c == '_'
                || c == '.';
            &&& !plain ==> !profile_cli::is_valid_name(name)
            &&& name[0] == '.' ==> !profile_cli::is_valid_name(name)
            &&& name.len() == 1 && plain && c != '.' ==> profile_cli::is_valid_name(name)
            &&& plain && i == name.len() - 1 && profile_cli::is_valid_name(name.drop_last())
                ==> profile_cli::is_valid_name(name)
            &&& !profile_cli::is_valid_name(Seq::empty())
        }),
{
    if i == name.len() - 1 && profile_cli::is_valid_name(name.drop_last())
        && profile_cli::is_name_char(c) {
        let init = name.drop_last();
        assert(init[0] == name[0]);
        assert forall|k: int| 0 <= k < name.len() implies profile_cli::is_name_char(
            #[trigger] name[k],
        ) by {
            if k < init.len() {
                assert(init[k] == name[k]);
            }
        }
    }
}

/// A layout is captured under a good name that is free, or that may be overwritten.
pub proof fn saving_checks_the_name(name: Seq<char>, exists_already: bool, force: bool)
    ensures
        profile_cli::save_checked(None, exists_already, force) == SaveCheck::NoName,
        !profile_cli::is_valid_name(name) ==> profile_cli::save_checked(
            Some(name),
            exists_already,
            force,
        ) == SaveCheck::BadName,
        profile_cli::is_valid_name(name) && exists_already && !force ==> profile_cli::save_checked(
            Some(name),
            exists_already,
            force,
        ) == SaveCheck::Exists,
        profile_cli::is_valid_name(name) && (force || !exists_already)
            ==> profile_cli::save_checked(Some(name), exists_already, force) == SaveCheck::Capture,
        SaveCheck::Capture.complaint(name) is None,
        SaveCheck::NoName.complaint(name) == Some("save requires a profile name"@),
        SaveCheck::BadName.complaint(name) == Some(
            "profile names are [A-Za-z0-9._-]+ and must not start with '.'"@,
        ),
        SaveCheck::Exists.complaint(name) == Some(
            "profile "@ + name + " already exists \u{2014} use --force to overwrite"@,
        ),
{
}

/// A profile is rendered in the dialect that was asked for, or else in the one that the
/// compositor is configured in.
pub proof fn the_dialect_follows_the_configuration(o: SaveOpts, f: ProfileFormat)
    ensures
        o.format is Some ==> o.dialect(true) == o.format->0 && o.dialect(false) == o.format->0,
        o.format is None ==> o.dialect(true) == ProfileFormat::Lua && o.dialect(false)
            == ProfileFormat::Conf,
        ProfileFormat::Lua.suffix() == "lua"@ && ProfileFormat::Conf.suffix() == "conf"@,
        ProfileFormat::Lua.twin_of() == ProfileFormat::Conf,
        ProfileFormat::Conf.twin_of() == ProfileFormat::Lua,
{
}

/// The words of the command, and that it has no others.
pub proof fn profile_actions_have_their_words(word: Seq<char>)
    ensures
        profile_command::action_of("save"@) == Some(ProfileAction::Save),
        profile_command::action_of("list"@) == Some(ProfileAction::List),
        profile_command::action_of("current"@) == Some(ProfileAction::Current),
        profile_command::action_of("switch"@) == Some(ProfileAction::Switch),
        profile_command::action_of("migrate"@) == Some(ProfileAction::Migrate),
        profile_command::action_of("verify"@) == Some(ProfileAction::Verify),
        word != "save"@ && word != "list"@ && word != "current"@ && word != "switch"@ && word
            != "migrate"@ && word != "verify"@ ==> profile_command::action_of(word) is None,
{
    reveal_strlit("save");
    reveal_strlit("list");
    reveal_strlit("current");
    reveal_strlit("switch");
    reveal_strlit("migrate");
    reveal_strlit("verify");
    assert("save"@[0] != "list"@[0]);
    assert("current"@[0] != "migrate"@[0]);
    assert("switch"@[0] != "verify"@[0]);
    assert("save"@.len() == 4 && "list"@.len() == 4 && "current"@.len() == 7 && "switch"@.len() == 6
        && "migrate"@.len() == 7 && "verify"@.len() == 6);
}

/// A profile is ticked in the list where every monitor it asks for is there: exactly where
/// it would be eligible.
pub proof fn the_list_ticks_what_applies(p: ProfileView, signature: Seq<Seq<char>>)
    ensures
        profile_cli::applies(p.matches, signature) == profiles::eligible(p, signature),
        profiles::eligible(p, signature) ==> profile_cli::list_line(p, signature) == "  ["@
            + "\u{2713}"@ + "] "@ + text::padded(p.name, 28) + " prio="@
            + number::signed_decimal(p.priority) + " edp="@ + text::padded(p.edp.word(), 7)
            + " match=["@ + text::joined(p.matches, ", "@) + "]"@,
        !profiles::eligible(p, signature) ==> profile_cli::list_line(p, signature) == "  ["@ + " "@
            + "] "@ + text::padded(p.name, 28) + " prio="@ + number::signed_decimal(p.priority)
            + " edp="@ + text::padded(p.edp.word(), 7) + " match=["@ + text::joined(
            p.matches,
            ", "@,
        ) + "]"@,
{
}

/// The profile of the higher priority is listed first.
pub proof fn the_list_goes_by_priority(a: ProfileView, b: ProfileView, signature: Seq<Seq<char>>)
    requires
        a.priority > b.priority,
    ensures
        profile_cli::list_lines_of(seq![a, b], signature) == seq![
            profile_cli::list_line(a, signature),
            profile_cli::list_line(b, signature),
        ],
        profile_cli::list_lines_of(seq![b, a], signature) == seq![
            profile_cli::list_line(a, signature),
            profile_cli::list_line(b, signature),
        ],
{
    reveal_with_fuel(order::order, 3);
    reveal_with_fuel(order::place, 3);
    let kept = profile_cli::by_priority(seq![a, b]);
    let turned = profile_cli::by_priority(seq![b, a]);
    assert(!kept(1, 0));
    assert(turned(1, 0));
    assert(order::order(kept, 0) =~= Seq::<int>::empty());
    assert(order::order(kept, 1) =~= seq![0int]);
    assert(order::order(kept, 2) =~= seq![0int, 1int]);
    assert(order::order(turned, 0) =~= Seq::<int>::empty());
    assert(order::order(turned, 1) =~= seq![0int]);
    assert(seq![0int].drop_last() =~= Seq::<int>::empty());
    assert(order::place(turned, seq![0int], 1) =~= seq![1int, 0int]);
    assert(order::order(turned, 2) =~= seq![1int, 0int]);
    assert(profile_cli::list_lines_of(seq![a, b], signature) =~= seq![
        profile_cli::list_line(a, signature),
        profile_cli::list_line(b, signature),
    ]);
    assert(profile_cli::list_lines_of(seq![b, a], signature) =~= seq![
        profile_cli::list_line(a, signature),
        profile_cli::list_line(b, signature),
    ]);
}

/// A name is known where a profile of the list has it.
pub proof fn listed_names_are_known(list: Seq<ProfileView>, i: int, other: Seq<char>)
    requires
        0 <= i < list.len(),
        forall|k: int| 0 <= k < list.len() ==> (#[trigger] list[k]).name != other,
    ensures
        profile_cli::is_known(list, list[i].name),
        !profile_cli::is_known(list, other),
        profile_cli::names_of(list).len() == list.len(),
        profile_cli::names_of(list)[i] == list[i].name,
{
}

// ------------------------------------------------------------------------------ files

/// A file name falls into what stands before its last dot and what stands behind it.
pub proof fn file_names_fall_apart_at_the_last_dot(stem: Seq<char>, ext: Seq<char>)
    requires
        stem.len() > 0,
        !ext.contains('.'),
    ensures
        profile_store::stem_of(stem + seq!['.'] + ext) == stem,
        profile_store::extension_of(stem + seq!['.'] + ext) == Some(ext),
        profile_store::extension_of(seq!['.'] + ext) is None,
        profile_store::extension_of(ext) is None,
        profile_store::stem_of(ext) == ext,
{
    let name = stem + seq!['.'] + ext;
    assert forall|i: int| 0 <= i < ext.len() implies ext[i] != '.' by {
        assert(ext.contains(ext[i]));
    }
    texts::lemma_tail(name, '.', stem.len() as int + 1);
    assert(name.take(stem.len() as int) =~= stem);
    assert(name.skip(stem.len() as int + 1) =~= ext);
    texts::lemma_tail(seq!['.'] + ext, '.', 1);
    texts::lemma_tail(ext, '.', 0);
}

/// A dialect is known by its extension.
pub proof fn dialects_are_known_by_extension(stem: Seq<char>, ext: Seq<char>)
    requires
        stem.len() > 0,
        !ext.contains('.'),
        ext != "conf"@,
        ext != "lua"@,
    ensures
        profile_store::dialect_of(stem + seq!['.'] + "conf"@) == Some(ProfileFormat::Conf),
        profile_store::dialect_of(stem + seq!['.'] + "lua"@) == Some(ProfileFormat::Lua),
        profile_store::dialect_of(stem + seq!['.'] + ext) is None,
{
    lemma_dialect_words();
    file_names_fall_apart_at_the_last_dot(stem, "conf"@);
    file_names_fall_apart_at_the_last_dot(stem, "lua"@);
    file_names_fall_apart_at_the_last_dot(stem, ext);
}

proof fn lemma_dialect_words()
    ensures
        "conf"@ != "lua"@,
        !"conf"@.contains('.') && !"lua"@.contains('.'),
        !"conf"@.contains('/') && !"lua"@.contains('/'),
        "conf"@.len() == 4 && "lua"@.len() == 3,
{
    reveal_strlit("conf");
    reveal_strlit("lua");
    assert("conf"@.len() == 4 && "lua"@.len() == 3);
}

/// A name that names a file: it is no directory that is only pointed at.
pub open spec fn is_file_name(name: Seq<char>) -> bool {
    &&& name.len() > 0
    &&& !name.contains('/')
    &&& name != "."@
    &&& name != ".."@
}

/// The file name of a path is its last component, with or without a slash behind it.
pub proof fn the_last_component_names_the_file(dir: Seq<char>, name: Seq<char>)
    requires
        is_file_name(name),
    ensures
        profile_store::file_name_of(dir + seq!['/'] + name) == Some(name),
        profile_store::file_name_of(name) == Some(name),
        profile_store::file_name_of(dir + seq!['/'] + name + seq!['/']) == Some(name),
        profile_store::without_tail(dir + seq!['/'] + name) == dir + seq!['/'] + name,
        profile_store::file_name_of(seq!['/']) is None,
{
    reveal_strlit(".");
    assert(name.contains(name.last()));
    let path = dir + seq!['/'] + name;
    assert(path.last() == name.last());
    if name.len() == 1 {
        assert(name.last() != '.') by {
            if name.last() == '.' {
                assert(name =~= "."@);
            }
        }
    } else {
        assert(path[path.len() - 2] == name[name.len() - 2]);
        assert(name.contains(name[name.len() - 2]));
    }
    texts::the_last_piece_is_found(dir, name, '/');
    let ended = path + seq!['/'];
    assert(ended.drop_last() =~= path);
    let root = seq!['/'];
    assert(root.drop_last() =~= Seq::<char>::empty());
    assert(profile_store::without_tail(Seq::<char>::empty()) =~= Seq::<char>::empty());
    assert(text::after_last(Seq::<char>::empty(), '/').len() == 0);
}

proof fn lemma_dotted(stem: Seq<char>, ext: Seq<char>)
    requires
        stem.len() > 0,
        !stem.contains('/'),
        ext.len() > 1,
        !ext.contains('/'),
    ensures
        is_file_name(stem + seq!['.'] + ext),
{
    reveal_strlit(".");
    reveal_strlit("..");
    let name = stem + seq!['.'] + ext;
    assert(name.len() > 2);
    if name.contains('/') {
        let i = choose|i: int| 0 <= i < name.len() && name[i] == '/';
        if i < stem.len() {
            assert(stem.contains(stem[i]));
        } else if i > stem.len() {
            assert(name[i] == ext[i - stem.len() - 1]);
            assert(ext.contains(ext[i - stem.len() - 1]));
        }
    }
}

/// A link names the profile whose file it leads to.
pub proof fn links_name_their_profile(dir: Seq<char>, stem: Seq<char>)
    requires
        stem.len() > 0,
        !stem.contains('/'),
    ensures
        profile_store::linked_name(Some(dir + seq!['/'] + (stem + seq!['.'] + "lua"@))) == Some(
            stem,
        ),
        profile_store::linked_name(Some(dir + seq!['/'] + (stem + seq!['.'] + "conf"@))) == Some(
            stem,
        ),
        profile_store::linked_name(None) is None,
{
    lemma_dialect_words();
    lemma_dotted(stem, "lua"@);
    lemma_dotted(stem, "conf"@);
    the_last_component_names_the_file(dir, stem + seq!['.'] + "lua"@);
    the_last_component_names_the_file(dir, stem + seq!['.'] + "conf"@);
    file_names_fall_apart_at_the_last_dot(stem, "lua"@);
    file_names_fall_apart_at_the_last_dot(stem, "conf"@);
}

/// The link of a profile's own dialect is set to it, and where there is a twin, the other
/// link to that.
pub proof fn both_links_are_set_where_there_is_a_twin(dir: Seq<char>, stem: Seq<char>)
    requires
        stem.len() > 0,
        !stem.contains('/'),
    ensures
        ({
            let lua = dir + seq!['/'] + (stem + seq!['.'] + "lua"@);
            let conf = dir + seq!['/'] + (stem + seq!['.'] + "conf"@);
            &&& profile_store::repointing(lua, false) == Some(
                seq![RepointView { format: ProfileFormat::Lua, target: lua }],
            )
            &&& profile_store::repointing(lua, true) == Some(
                seq![
                    RepointView { format: ProfileFormat::Lua, target: lua },
                    RepointView { format: ProfileFormat::Conf, target: conf },
                ],
            )
            &&& profile_store::repointing(conf, true) == Some(
                seq![
                    RepointView { format: ProfileFormat::Conf, target: conf },
                    RepointView { format: ProfileFormat::Lua, target: lua },
                ],
            )
        }),
{
    reveal_strlit(".");
    lemma_dialect_words();
    lemma_dotted(stem, "lua"@);
    lemma_dotted(stem, "conf"@);
    let ln = stem + seq!['.'] + "lua"@;
    let cn = stem + seq!['.'] + "conf"@;
    let lua = dir + seq!['/'] + ln;
    let conf = dir + seq!['/'] + cn;
    the_last_component_names_the_file(dir, ln);
    the_last_component_names_the_file(dir, cn);
    file_names_fall_apart_at_the_last_dot(stem, "lua"@);
    file_names_fall_apart_at_the_last_dot(stem, "conf"@);
    assert(lua.take(lua.len() - ln.len()) =~= dir + seq!['/']);
    assert(conf.take(conf.len() - cn.len()) =~= dir + seq!['/']);
    assert("."@ =~= seq!['.']);
    assert(dir + seq!['/'] + stem + ("."@ + "conf"@) =~= conf);
    assert(dir + seq!['/'] + stem + ("."@ + "lua"@) =~= lua);
    assert(profile_store::repointing(lua, false)->0 =~= seq![
        RepointView { format: ProfileFormat::Lua, target: lua },
    ]);
    assert(profile_store::repointing(lua, true)->0 =~= seq![
        RepointView { format: ProfileFormat::Lua, target: lua },
        RepointView { format: ProfileFormat::Conf, target: conf },
    ]);
    assert(profile_store::repointing(conf, true)->0 =~= seq![
        RepointView { format: ProfileFormat::Conf, target: conf },
        RepointView { format: ProfileFormat::Lua, target: lua },
    ]);
}

/// A file was written by hand where it is in a dialect, not hidden, and does not say that
/// it is not to be edited.
pub proof fn rendered_files_say_so(e: LegacyEntry, before: Seq<char>, after: Seq<char>)
    ensures
        e.content is None ==> !e.is_legacy(),
        e.content is Some && e.content->0@ == before + "Do not edit"@ + after ==> !e.is_legacy(),
        text::has_prefix(e.name@, "."@) ==> !e.is_legacy(),
        profile_store::dialect_of(e.name@) is None ==> !e.is_legacy(),
        profile_store::dialect_of(e.name@) is Some && !text::has_prefix(e.name@, "."@)
            && e.content is Some && !text::has_part(e.content->0@, "Do not edit"@)
            ==> e.is_legacy(),
{
    let s = before + "Do not edit"@ + after;
    let n = before.len() as int;
    assert(s.subrange(n, n + "Do not edit"@.len()) =~= "Do not edit"@);
    assert(text::occurs_at(s, "Do not edit"@, n));
}

/// A system profile joins the list behind the others where its name is free, and stays out
/// where it is taken.
pub proof fn system_profiles_fill_the_gaps(
    user: Seq<TomlView>,
    system: Seq<TomlView>,
    p: TomlView,
)
    ensures
        ({
            let m = profile_store::merged(user, system);
            let taken = exists|i: int| 0 <= i < m.len() && (#[trigger] m[i]).inner.name
                == p.inner.name;
            &&& taken ==> profile_store::merged(user, system.push(p)) == m
            &&& !taken ==> profile_store::merged(user, system.push(p)) == m.push(p)
            &&& profile_store::merged(user, Seq::empty()) == user
        }),
{
    assert(system.push(p).drop_last() =~= system);
}

/// The signature has the description of every monitor, in order; one without has an empty
/// one.
pub proof fn signatures_hold_the_descriptions(rows: Seq<json::Json>, i: int)
    requires
        0 <= i < rows.len(),
    ensures
        profile_store::descriptions_of(rows).len() == rows.len(),
        rows[i].text_at("description"@) is Some ==> profile_store::descriptions_of(rows)[i]
            == rows[i].text_at("description"@)->0,
        rows[i].text_at("description"@) is None ==> profile_store::descriptions_of(rows)[i].len()
            == 0,
{
}

// -------------------------------------------------------------------------- migrating

/// A file is migrated where it is in a dialect and not hidden, and is the one that was asked
/// for, if one was. A `conf` file steps back for a `lua` file of the same profile.
pub proof fn files_in_a_dialect_are_migrated(stem: Seq<char>, other: Seq<char>)
    requires
        stem.len() > 0,
        stem[0] != '.',
        other != stem,
    ensures
        ({
            let lua = stem + seq!['.'] + "lua"@;
            let conf = stem + seq!['.'] + "conf"@;
            &&& profile_cli::is_candidate(lua, None)
            &&& profile_cli::is_candidate(conf, None)
            &&& profile_cli::is_candidate(conf, Some(stem))
            &&& !profile_cli::is_candidate(conf, Some(other))
            &&& profile_cli::legacy_of(seq![conf], None).contains(conf)
            &&& profile_cli::legacy_of(seq![lua, conf], None).contains(lua)
            &&& !profile_cli::legacy_of(seq![lua, conf], None).contains(conf)
        }),
{
    reveal_strlit(".");
    lemma_dialect_words();
    let lua = stem + seq!['.'] + "lua"@;
    let conf = stem + seq!['.'] + "conf"@;
    file_names_fall_apart_at_the_last_dot(stem, "lua"@);
    file_names_fall_apart_at_the_last_dot(stem, "conf"@);
    assert(lua[0] == stem[0] && conf[0] == stem[0]);
    assert(!text::has_prefix(lua, "."@)) by {
        if text::has_prefix(lua, "."@) {
            assert(lua.take(1)[0] == lua[0]);
        }
    }
    assert(!text::has_prefix(conf, "."@)) by {
        if text::has_prefix(conf, "."@) {
            assert(conf.take(1)[0] == conf[0]);
        }
    }
    let alone = seq![conf];
    assert(alone[0] == conf);
    assert(alone.contains(conf));
    profile_cli::migrated_files_are_those_that_stand(alone, None);
    let cands = profile_cli::candidates(alone, None);
    assert(!profile_cli::displaced(conf, cands)) by {
        if profile_cli::displaced(conf, cands) {
            let i = choose|i: int|
                0 <= i < cands.len() && profile_store::stem_of(#[trigger] cands[i])
                    == profile_store::stem_of(conf) && profile_store::extension_of(cands[i])
                    == Some("lua"@);
            alone.lemma_filter_contains_rev(profile_cli::wanted(None), cands[i]);
            assert(alone.contains(cands[i]));
        }
    }
    let both = seq![lua, conf];
    assert(both[0] == lua && both[1] == conf);
    assert(both.contains(lua));
    profile_cli::lua_displaces_conf(both, None, conf, lua);
}

/// What becomes of each file: one that is skipped neither ends the migration nor counts;
/// one that could not be read, parsed or written ends it, and so does one whose layout got
/// lost; all others count.
pub proof fn files_end_or_count(left: usize, converted: usize, dry_run: bool, ev: FileEvent)
    requires
        left > 1,
        left + converted <= usize::MAX,
    ensures
        ({
            let going = Progress::Going { left, converted };
            let next = Progress::Going { left: (left - 1) as usize, converted };
            let counted = Progress::Going {
                left: (left - 1) as usize,
                converted: (converted + 1) as usize,
            };
            &&& profile_command::progressed(going, FileEvent::Skipped, dry_run) == next
            &&& profile_command::progressed(going, FileEvent::Unreadable, dry_run)
                == Progress::Failed
            &&& profile_command::progressed(going, FileEvent::Unparsed, dry_run)
                == Progress::Failed
            &&& profile_command::progressed(going, FileEvent::WriteFailed, dry_run)
                == Progress::Failed
            &&& profile_command::progressed(going, FileEvent::Converted(Converted::Refuse), dry_run)
                == Progress::Failed
            &&& profile_command::progressed(going, FileEvent::Converted(Converted::Write), dry_run)
                == counted
            &&& profile_command::progressed(
                going,
                FileEvent::Converted(Converted::WouldWrite),
                dry_run,
            ) == counted
            &&& profile_command::progressed(Progress::Failed, ev, dry_run) == Progress::Failed
        }),
        Progress::Failed.ending() == Some(1i32),
        (Progress::Told { converted }).ending() == Some(0i32),
        Progress::Verify.ending() is None,
        profile_command::counted(0, converted as int, true) == (Progress::Told { converted }),
        profile_command::counted(0, converted as int, false) == Progress::Verify,
{
}

/// A migrated profile is compared where both files could be read and parsed and there is a
/// layout on either side; what comes first in the way of that is complained about; one that
/// was not migrated is passed over.
pub proof fn comparisons_need_both_sides(c: Comparable)
    ensures
        ({
            let v = profile_cli::verification_of(c);
            let readable = c.toml_exists && c.legacy_read && c.toml_read;
            let parsed = readable && c.legacy_parsed && c.toml_parsed;
            &&& !c.toml_exists <==> v == Verification::Skip
            &&& parsed && c.legacy_monitors + c.toml_monitors > 0 <==> v == Verification::Compare
            &&& c.toml_exists && !c.legacy_read ==> v == Verification::Complain(
                Complaint::LegacyUnread,
            )
            &&& c.toml_exists && c.legacy_read && !c.toml_read ==> v == Verification::Complain(
                Complaint::TomlUnread,
            )
            &&& readable && !c.legacy_parsed ==> v == Verification::Complain(
                Complaint::LegacyUnparsed,
            )
            &&& readable && c.legacy_parsed && !c.toml_parsed ==> v == Verification::Complain(
                Complaint::TomlUnparsed,
            )
            &&& parsed && c.legacy_monitors + c.toml_monitors == 0 ==> v == Verification::Complain(
                Complaint::NoMonitors,
            )
        }),
{
}

// ---------------------------------------------------------------------------- writing

/// A number is written without the zeros at its end, and without a dot that they leave
/// bare.
pub proof fn numbers_lose_their_zeros(whole: Seq<char>, part: Seq<char>, zeros: Seq<char>)
    requires
        whole.len() > 0,
        whole.last() != '.',
        forall|i: int| 0 <= i < zeros.len() ==> #[trigger] zeros[i] == '0',
        part.len() > 0,
        part.last() != '0',
        part.last() != '.',
    ensures
        profile_toml::plain_number(whole + seq!['.'] + part + zeros) == whole + seq!['.'] + part,
        profile_toml::plain_number(whole + seq!['.'] + zeros) == whole,
{
    let kept = whole + seq!['.'] + part;
    assert(kept.last() == part.last());
    lemma_zeros(kept, zeros);
    let bare = whole + seq!['.'];
    assert(bare.last() == '.');
    lemma_zeros(bare, zeros);
    assert(bare.drop_last() =~= whole);
    assert(text::without_tail(whole, '.') == whole);
}

proof fn lemma_zeros(s: Seq<char>, zeros: Seq<char>)
    requires
        s.len() > 0,
        s.last() != '0',
        forall|i: int| 0 <= i < zeros.len() ==> #[trigger] zeros[i] == '0',
    ensures
        text::without_tail(s + zeros, '0') == s,
    decreases zeros.len(),
{
    if zeros.len() == 0 {
        assert(s + zeros =~= s);
    } else {
        let init = zeros.drop_last();
        assert forall|i: int| 0 <= i < init.len() implies #[trigger] init[i] == '0' by {
            assert(init[i] == zeros[i]);
        }
        assert((s + zeros).drop_last() =~= s + init);
        assert((s + zeros).last() == zeros[zeros.len() - 1]);
        lemma_zeros(s, init);
    }
}

/// A profile with nothing out of the ordinary is written as its matches alone; everything
/// that is out of the ordinary has a line of its own.
pub proof fn profiles_are_written_by_what_is_special(d: DocView)
    requires
        d.priority == d.matches.len(),
        d.hooks.len() == 0,
        d.description.len() == 0,
    ensures
        ({
            let asked = "match = "@ + profile_toml::quoted_list(d.matches) + "\n"@;
            let plain = DocView { edp: EdpPolicy::Auto, gpu: GpuPref::Auto, ..d };
            &&& profile_toml::head_of(plain) == asked
            &&& profile_toml::head_of(DocView { edp: EdpPolicy::Disable, ..plain }) == asked + (
            "edp = "@ + text::debug_of("disable"@) + "\n"@)
            &&& profile_toml::head_of(DocView { edp: EdpPolicy::Enable, ..plain }) == asked + (
            "edp = "@ + text::debug_of("enable"@) + "\n"@)
            &&& profile_toml::head_of(DocView { gpu: GpuPref::Igpu, ..plain }) == asked + (
            "gpu = "@ + text::debug_of("igpu"@) + "\n"@)
            &&& profile_toml::head_of(DocView { gpu: GpuPref::Dgpu, ..plain }) == asked + (
            "gpu = "@ + text::debug_of("dgpu"@) + "\n"@)
        }),
{
    let asked = "match = "@ + profile_toml::quoted_list(d.matches) + "\n"@;
    let plain = DocView { edp: EdpPolicy::Auto, gpu: GpuPref::Auto, ..d };
    assert(profile_toml::head_of(plain) =~= asked);
    assert(profile_toml::head_of(DocView { edp: EdpPolicy::Disable, ..plain }) =~= asked + (
    "edp = "@ + text::debug_of("disable"@) + "\n"@));
    assert(profile_toml::head_of(DocView { edp: EdpPolicy::Enable, ..plain }) =~= asked + (
    "edp = "@ + text::debug_of("enable"@) + "\n"@));
    assert(profile_toml::head_of(DocView { gpu: GpuPref::Igpu, ..plain }) =~= asked + ("gpu = "@
        + text::debug_of("igpu"@) + "\n"@));
    assert(profile_toml::head_of(DocView { gpu: GpuPref::Dgpu, ..plain }) =~= asked + ("gpu = "@
        + text::debug_of("dgpu"@) + "\n"@));
}

/// A description, hooks and a priority of its own are written with the matches, each in its
/// place.
pub proof fn extras_are_written_in_their_place(d: DocView)
    requires
        d.edp == EdpPolicy::Auto,
        d.gpu == GpuPref::Auto,
        d.description.len() > 0,
        d.hooks.len() > 0,
        d.priority != d.matches.len(),
    ensures
        profile_toml::head_of(d) == ("description = "@ + json::quoted(d.description) + "\n"@) + (
        "match = "@ + profile_toml::quoted_list(d.matches) + "\n"@) + ("hooks = "@
            + profile_toml::quoted_list(d.hooks) + "\n"@) + ("priority = "@
            + number::signed_decimal(d.priority) + "\n"@),
{
    assert(profile_toml::head_of(d) =~= ("description = "@ + json::quoted(d.description) + "\n"@)
        + ("match = "@ + profile_toml::quoted_list(d.matches) + "\n"@) + ("hooks = "@
        + profile_toml::quoted_list(d.hooks) + "\n"@) + ("priority = "@
        + number::signed_decimal(d.priority) + "\n"@));
}

/// A monitor has its table with its output, and a line for everything that is set; what has
/// its default is left out.
pub proof fn monitors_are_written_by_what_is_set(
    m: MonitorView,
    mode: Seq<char>,
    scale: Seq<char>,
    x: i32,
    y: i32,
)
    ensures
        ({
            let table = "\n[[monitor]]\n"@ + ("output = "@ + json::quoted(m.output) + "\n"@);
            let bare = MonitorView {
                mode: None,
                scale: None,
                position: None,
                transform: 0,
                enabled: true,
                ..m
            };
            &&& profile_toml::monitor_of(bare) == table
            &&& profile_toml::monitor_of(MonitorView { enabled: false, ..bare }) == table
                + "enabled = false\n"@
            &&& profile_toml::monitor_of(MonitorView { mode: Some(mode), ..bare }) == table + (
            "mode = "@ + json::quoted(mode) + "\n"@)
            &&& profile_toml::monitor_of(MonitorView { scale: Some(scale), ..bare }) == table + (
            "scale = "@ + profile_toml::plain_number(scale) + "\n"@)
            &&& profile_toml::monitor_of(MonitorView { position: Some((x, y)), ..bare }) == table + (
            "position = ["@ + number::signed_decimal(x as int) + ", "@ + number::signed_decimal(
                y as int,
            ) + "]\n"@)
            &&& profile_toml::monitor_of(MonitorView { transform: 3, ..bare }) == table + (
            "transform = "@ + number::decimal(3) + "\n"@)
        }),
{
    let table = "\n[[monitor]]\n"@ + ("output = "@ + json::quoted(m.output) + "\n"@);
    let bare = MonitorView {
        mode: None,
        scale: None,
        position: None,
        transform: 0,
        enabled: true,
        ..m
    };
    assert(profile_toml::monitor_of(bare) =~= table);
    assert(profile_toml::monitor_of(MonitorView { enabled: false, ..bare }) =~= table
        + "enabled = false\n"@);
    assert(profile_toml::monitor_of(MonitorView { mode: Some(mode), ..bare }) =~= table + ("mode = "@
        + json::quoted(mode) + "\n"@));
    assert(profile_toml::monitor_of(MonitorView { scale: Some(scale), ..bare }) =~= table + (
    "scale = "@ + profile_toml::plain_number(scale) + "\n"@));
    assert(profile_toml::monitor_of(MonitorView { position: Some((x, y)), ..bare }) =~= table + (
    "position = ["@ + number::signed_decimal(x as int) + ", "@ + number::signed_decimal(y as int)
        + "]\n"@));
    assert(profile_toml::monitor_of(MonitorView { transform: 3, ..bare }) =~= table + (
    "transform = "@ + number::decimal(3) + "\n"@));
}

/// Monitors and workspaces are written in order, each behind the ones before it, the
/// workspaces behind all monitors.
pub proof fn tables_are_written_in_order(d: DocView, m: MonitorView, w: WorkspaceView)
    ensures
        profile_toml::monitors_of(d.monitors.push(m)) == profile_toml::monitors_of(d.monitors)
            + profile_toml::monitor_of(m),
        profile_toml::workspaces_of(d.workspaces.push(w)) == profile_toml::workspaces_of(
            d.workspaces,
        ) + profile_toml::workspace_of(w),
        d.workspaces.len() == 0 ==> profile_toml::toml_of(d) == profile_toml::head_of(d)
            + profile_toml::monitors_of(d.monitors),
        d.monitors.len() == 0 ==> profile_toml::toml_of(d) == profile_toml::head_of(d)
            + profile_toml::workspaces_of(d.workspaces),
        profile_toml::workspace_of(WorkspaceView { default: false, ..w }) == "\n[[workspace]]\n"@ + (
        "workspace = "@ + json::quoted(w.workspace) + "\n"@) + ("monitor = "@ + json::quoted(
            w.monitor,
        ) + "\n"@),
        profile_toml::workspace_of(WorkspaceView { default: true, ..w })
            == profile_toml::workspace_of(WorkspaceView { default: false, ..w })
            + "default = true\n"@,
{
    assert(d.monitors.push(m).drop_last() =~= d.monitors);
    assert(d.workspaces.push(w).drop_last() =~= d.workspaces);
    if d.workspaces.len() == 0 {
        assert(profile_toml::toml_of(d) =~= profile_toml::head_of(d) + profile_toml::monitors_of(
            d.monitors,
        ));
    }
    if d.monitors.len() == 0 {
        assert(profile_toml::toml_of(d) =~= profile_toml::head_of(d)
            + profile_toml::workspaces_of(d.workspaces));
    }
    let plain = WorkspaceView { default: false, ..w };
    assert(profile_toml::workspace_of(plain) =~= "\n[[workspace]]\n"@ + ("workspace = "@
        + json::quoted(w.workspace) + "\n"@) + ("monitor = "@ + json::quoted(w.monitor) + "\n"@));
    assert(profile_toml::workspace_of(WorkspaceView { default: true, ..w })
        =~= profile_toml::workspace_of(plain) + "default = true\n"@);
}

// -------------------------------------------------------------------------- comparing

/// A field that differs is named, with what either side has.
pub proof fn differences_are_named(name: Seq<char>, a: SideView, b: SideView)
    ensures
        a.edp != b.edp && b == (SideView { edp: b.edp, ..a }) ==> profile_verify::field_diffs(
            name,
            a,
            b,
        ) == seq![
            name + ": "@ + "edp"@ + " legacy="@ + profile_verify::shown_edp(a.edp) + " toml="@
                + profile_verify::shown_edp(b.edp),
        ],
        a.gpu != b.gpu && b == (SideView { gpu: b.gpu, ..a }) ==> profile_verify::field_diffs(
            name,
            a,
            b,
        ) == seq![
            name + ": "@ + "gpu"@ + " legacy="@ + profile_verify::shown_gpu(a.gpu) + " toml="@
                + profile_verify::shown_gpu(b.gpu),
        ],
        a.priority != b.priority && b == (SideView { priority: b.priority, ..a })
            ==> profile_verify::field_diffs(name, a, b) == seq![
            name + ": "@ + "priority"@ + " legacy="@ + number::signed_decimal(a.priority)
                + " toml="@ + number::signed_decimal(b.priority),
        ],
        a.workspaces != b.workspaces && b == (SideView { workspaces: b.workspaces, ..a })
            ==> profile_verify::field_diffs(name, a, b) == seq![
            name + ": "@ + "workspaces"@ + " legacy="@ + a.workspaces + " toml="@ + b.workspaces,
        ],
        profile_verify::shown_edp(EdpPolicy::Auto) == "Auto"@,
        profile_verify::shown_edp(EdpPolicy::Enable) == "Enable"@,
        profile_verify::shown_edp(EdpPolicy::Disable) == "Disable"@,
        profile_verify::shown_gpu(GpuPref::Auto) == "Auto"@,
        profile_verify::shown_gpu(GpuPref::Igpu) == "Igpu"@,
        profile_verify::shown_gpu(GpuPref::Dgpu) == "Dgpu"@,
        profile_verify::shown_flag(true) == "true"@ && profile_verify::shown_flag(false)
            == "false"@,
{
    reveal(profile_verify::diff);
    let d = profile_verify::field_diffs(name, a, b);
    if d.len() == 1 {
        assert(d =~= seq![d[0]]);
    }
}

/// An output that differs is named behind the profile, with its field and both values.
pub proof fn output_differences_are_named(name: Seq<char>, a: OutputView, b: OutputView)
    ensures
        ({
            let label = name + "."@ + a.selector;
            let d = profile_verify::output_diffs(name, a, b);
            &&& a.mode != b.mode && b == (OutputView { mode: b.mode, ..a }) ==> d == seq![
                label + ": "@ + "mode"@ + " legacy="@ + a.mode + " toml="@ + b.mode,
            ]
            &&& a.scale != b.scale && b == (OutputView { scale: b.scale, ..a }) ==> d == seq![
                label + ": "@ + "scale"@ + " legacy="@ + a.scale + " toml="@ + b.scale,
            ]
            &&& a.position != b.position && b == (OutputView { position: b.position, ..a }) ==> d
                == seq![
                label + ": "@ + "position"@ + " legacy="@ + ("("@ + number::signed_decimal(
                    a.position.0 as int,
                ) + ", "@ + number::signed_decimal(a.position.1 as int) + ")"@) + " toml="@ + ("("@
                    + number::signed_decimal(b.position.0 as int) + ", "@ + number::signed_decimal(
                    b.position.1 as int,
                ) + ")"@),
            ]
            &&& a.enabled != b.enabled && b == (OutputView { enabled: b.enabled, ..a }) ==> d
                == seq![
                label + ": "@ + "enabled"@ + " legacy="@ + (if a.enabled {
                    "true"@
                } else {
                    "false"@
                }) + " toml="@ + (if b.enabled {
                    "true"@
                } else {
                    "false"@
                }),
            ]
            &&& a == b ==> d.len() == 0
        }),
{
    reveal(profile_verify::diff);
    let d = profile_verify::output_diffs(name, a, b);
    if d.len() == 1 {
        assert(d =~= seq![d[0]]);
    }
}

/// Layouts of different lengths differ in that, and outputs are compared place by place as
/// far as both have them.
pub proof fn layouts_are_compared_place_by_place(
    name: Seq<char>,
    a: Seq<OutputView>,
    b: Seq<OutputView>,
    x: OutputView,
    y: OutputView,
)
    requires
        a.len() == b.len(),
    ensures
        profile_verify::layout_diffs(name, a.push(x), b.push(y)) == profile_verify::layout_diffs(
            name,
            a,
            b,
        ) + profile_verify::output_diffs(name, x, y),
        profile_verify::layout_diffs(name, a.push(x), b).len() > 0,
        profile_verify::layout_diffs(name, a.push(x), b)[0] == name + ": "@ + "output-count"@
            + " legacy="@ + number::decimal(a.len() + 1) + " toml="@ + number::decimal(b.len()),
{
    reveal(profile_verify::diff);
    let n = a.len() as int;
    lemma_prefix_diffs(name, a, b, a.push(x), b.push(y), n);
    lemma_prefix_diffs(name, a, b, a.push(x), b, n);
    assert(a.push(x)[n] == x && b.push(y)[n] == y);
    assert(profile_verify::layout_diffs(name, a.push(x), b.push(y))
        =~= profile_verify::layout_diffs(name, a, b) + profile_verify::output_diffs(name, x, y));
}

proof fn lemma_prefix_diffs(
    name: Seq<char>,
    a: Seq<OutputView>,
    b: Seq<OutputView>,
    c: Seq<OutputView>,
    d: Seq<OutputView>,
    n: int,
)
    requires
        0 <= n <= a.len(),
        a.len() == b.len(),
        a.len() <= c.len(),
        b.len() <= d.len(),
        forall|i: int| 0 <= i < a.len() ==> #[trigger] a[i] == c[i],
        forall|i: int| 0 <= i < b.len() ==> #[trigger] b[i] == d[i],
    ensures
        profile_verify::outputs_diffs(name, a, b, n) == profile_verify::outputs_diffs(
            name,
            c,
            d,
            n,
        ),
    decreases n,
{
    if n > 0 {
        lemma_prefix_diffs(name, a, b, c, d, n - 1);
        assert(a[n - 1] == c[n - 1] && b[n - 1] == d[n - 1]);
    }
}

/// The layouts with the connected outputs are compared too, where both sides have one.
pub proof fn live_layouts_are_compared(
    name: Seq<char>,
    a: SideView,
    b: SideView,
    x: Seq<OutputView>,
    y: Seq<OutputView>,
)
    requires
        a.live == Some(x),
        b.live == Some(y),
        x.len() != y.len(),
    ensures
        profile_verify::profile_diffs(name, a, b).len() > 0,
        profile_verify::profile_diffs(name, a, b).contains(
            name + ": "@ + "output-count"@ + " legacy="@ + number::decimal(x.len()) + " toml="@
                + number::decimal(y.len()),
        ),
{
    reveal(profile_verify::diff);
    let all = profile_verify::profile_diffs(name, a, b);
    let live = profile_verify::layout_diffs(name, x, y);
    let n = all.len() - live.len();
    assert(all[n] == live[0]);
}

} // verus!
