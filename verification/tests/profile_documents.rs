use hyprstate::profile_cli::{
    available_line, converted, dry_run_line, migration, profile_applies, save_check, switch_check,
    verification, verify_outcome, Comparable, Complaint, Converted, Migration, SaveCheck, SaveOpts,
    SwitchCheck, Verification,
};
use hyprstate::profile_command::{
    migrate_step, profile_action, save_code, start_migration, switch_code, FileEvent,
    ProfileAction, Progress, SaveFailure,
};
use hyprstate::profile_store::ProfileFormat;
use hyprstate::profile_toml::{format_number, to_toml, MonitorDoc, ProfileDoc, WorkspaceDoc};
use hyprstate::profile_verify::{verify_profiles, OutputDoc, Side};
use hyprstate::profiles::{EdpPolicy, GpuPref, Profile};

fn strings(v: &[&str]) -> Vec<String> {
    v.iter().map(|s| s.to_string()).collect()
}

fn monitor(output: &str, scale: &str, position: (i32, i32)) -> OutputDoc {
    OutputDoc {
        selector: output.to_string(),
        mode: "Some(Mode { width: 3840, height: 2160, refresh: 60.0 })".to_string(),
        position,
        scale: scale.to_string(),
        transform: 0,
        enabled: true,
    }
}

fn profile(layout: Vec<OutputDoc>) -> Side {
    Side {
        matches: strings(&["Panel"]),
        edp: EdpPolicy::Auto,
        gpu: GpuPref::Auto,
        priority: 1,
        hooks: vec![],
        workspaces: "[]".to_string(),
        layout,
        live: None,
    }
}

#[test]
fn verify_detects_scale_drift() {
    let a = profile(vec![monitor("DP-1", "1.5", (0, 0))]);
    let b = profile(vec![monitor("DP-1", "1.6", (0, 0))]);
    let differences = verify_profiles("test", &a, &b);
    assert_eq!(differences.len(), 1);
    assert!(differences[0].contains(": scale "));
    assert_eq!(differences[0], "test.DP-1: scale legacy=1.5 toml=1.6");
}

#[test]
fn verify_accepts_identical() {
    let a = profile(vec![monitor("DP-1", "1.5", (0, 0))]);
    assert!(verify_profiles("test", &a, &a).is_empty());
}

#[test]
fn verify_catches_position_source_difference() {
    let a = profile(vec![monitor("DP-1", "1.5", (0, 0)), monitor("DP-2", "1.5", (0, 0))]);
    let b = profile(vec![monitor("DP-1", "1.5", (0, 0)), monitor("DP-2", "1.5", (2560, 0))]);
    let differences = verify_profiles("test", &a, &b);
    assert!(differences.iter().any(|d| d.contains("position")));
    assert_eq!(differences, vec!["test.DP-2: position legacy=(0, 0) toml=(2560, 0)"]);
}

#[test]
fn every_field_is_compared() {
    let a = profile(vec![]);
    let mut b = profile(vec![monitor("DP-1", "1", (0, 0))]);
    b.matches = strings(&["Panel", "Dell"]);
    b.edp = EdpPolicy::Disable;
    b.gpu = GpuPref::Dgpu;
    b.priority = -2;
    b.hooks = strings(&["a \"b\""]);
    b.workspaces = "[1]".to_string();
    assert_eq!(
        verify_profiles("t", &a, &b),
        vec![
            "t: matches legacy=[\"Panel\"] toml=[\"Panel\", \"Dell\"]",
            "t: edp legacy=Auto toml=Disable",
            "t: gpu legacy=Auto toml=Dgpu",
            "t: priority legacy=1 toml=-2",
            "t: hooks legacy=[] toml=[\"a \\\"b\\\"\"]",
            "t: workspaces legacy=[] toml=[1]",
            "t: output-count legacy=0 toml=1",
        ]
    );
}

#[test]
fn live_layouts_are_compared_too() {
    let mut a = profile(vec![]);
    let mut b = profile(vec![]);
    a.live = Some(vec![monitor("DP-1", "1", (0, 0))]);
    let mut other = monitor("DP-2", "1", (0, 0));
    other.transform = 3;
    other.enabled = false;
    other.mode = "None".to_string();
    b.live = Some(vec![other]);
    let differences = verify_profiles("t", &a, &b);
    assert_eq!(differences.len(), 4);
    assert_eq!(differences[0], "t.DP-1: selector legacy=\"DP-1\" toml=\"DP-2\"");
    assert!(differences[1].starts_with("t.DP-1: mode "));
    assert_eq!(differences[2], "t.DP-1: transform legacy=0 toml=3");
    assert_eq!(differences[3], "t.DP-1: enabled legacy=true toml=false");
    b.live = None;
    assert!(verify_profiles("t", &a, &b).is_empty());
}

#[test]
fn numbers_lose_trailing_zeros() {
    assert_eq!(format_number("1.50"), "1.5");
    assert_eq!(format_number("2.00"), "2");
    assert_eq!(format_number("10.00"), "10");
    assert_eq!(format_number("1.25"), "1.25");
    assert_eq!(format_number("0.00"), "0");
}

fn document() -> ProfileDoc {
    ProfileDoc {
        name: "desk".to_string(),
        description: String::new(),
        matches: strings(&["Dell \"U\""]),
        edp: EdpPolicy::Auto,
        gpu: GpuPref::Auto,
        hooks: vec![],
        priority: 1,
        monitors: vec![],
        workspaces: vec![],
    }
}

#[test]
fn defaults_are_left_out_of_a_document() {
    assert_eq!(to_toml(&document()), "match = [\"Dell \\\"U\\\"\"]\n");
}

#[test]
fn a_whole_document() {
    let mut d = document();
    d.description = "Two\nlines".to_string();
    d.matches = strings(&["A", "B"]);
    d.edp = EdpPolicy::Disable;
    d.gpu = GpuPref::Igpu;
    d.hooks = strings(&["notify-send hi"]);
    d.priority = 7;
    d.monitors = vec![
        MonitorDoc {
            output: "DP-1".to_string(),
            mode: Some("3840x2160@60".to_string()),
            scale: Some("1.50".to_string()),
            position: Some((-2560, 0)),
            transform: 1,
            enabled: true,
        },
        MonitorDoc {
            output: "eDP-2".to_string(),
            mode: None,
            scale: None,
            position: None,
            transform: 0,
            enabled: false,
        },
    ];
    d.workspaces = vec![
        WorkspaceDoc { workspace: "1".to_string(), monitor: "DP-1".to_string(), default: true },
        WorkspaceDoc { workspace: "2".to_string(), monitor: "DP-1".to_string(), default: false },
    ];
    assert_eq!(
        to_toml(&d),
        "description = \"Two\\nlines\"\n\
         match = [\"A\", \"B\"]\n\
         edp = \"disable\"\n\
         gpu = \"igpu\"\n\
         hooks = [\"notify-send hi\"]\n\
         priority = 7\n\
         \n[[monitor]]\noutput = \"DP-1\"\nmode = \"3840x2160@60\"\nscale = 1.5\n\
         position = [-2560, 0]\ntransform = 1\n\
         \n[[monitor]]\noutput = \"eDP-2\"\nenabled = false\n\
         \n[[workspace]]\nworkspace = \"1\"\nmonitor = \"DP-1\"\ndefault = true\n\
         \n[[workspace]]\nworkspace = \"2\"\nmonitor = \"DP-1\"\n"
    );
}

#[test]
fn strings_are_quoted_as_documents_want_them() {
    let mut d = document();
    d.matches = strings(&["tab\t slash\\ bell\u{7} del\u{7f} \u{e9}"]);
    assert_eq!(
        to_toml(&d),
        "match = [\"tab\\t slash\\\\ bell\\u0007 del\u{7f} \u{e9}\"]\n"
    );
}

#[test]
fn saving_needs_a_free_and_valid_name() {
    assert_eq!(save_check(None, false, true), SaveCheck::NoName);
    assert_eq!(save_check(Some("a/b"), false, true), SaveCheck::BadName);
    assert_eq!(save_check(Some("desk"), true, false), SaveCheck::Exists);
    assert_eq!(save_check(Some("desk"), true, true), SaveCheck::Capture);
    assert_eq!(save_check(Some("desk"), false, false), SaveCheck::Capture);
    assert_eq!(SaveCheck::NoName.code(), 2);
    assert_eq!(SaveCheck::BadName.code(), 2);
    assert_eq!(SaveCheck::Exists.code(), 1);
    assert_eq!(SaveCheck::Capture.code(), 0);
    assert_eq!(SaveCheck::Capture.line("desk"), None);
    assert_eq!(
        SaveCheck::Exists.line("desk").unwrap(),
        "profile desk already exists \u{2014} use --force to overwrite"
    );
    assert_eq!(SaveCheck::NoName.line("").unwrap(), "save requires a profile name");
    assert_eq!(
        SaveCheck::BadName.line("").unwrap(),
        "profile names are [A-Za-z0-9._-]+ and must not start with '.'"
    );
    let opts = |format: Option<ProfileFormat>| SaveOpts {
        edp: EdpPolicy::Auto,
        gpu: GpuPref::Auto,
        priority: None,
        force: false,
        dry_run: false,
        format,
    };
    assert!(matches!(opts(None).render_format(true), ProfileFormat::Lua));
    assert!(matches!(opts(None).render_format(false), ProfileFormat::Conf));
    assert!(matches!(opts(Some(ProfileFormat::Conf)).render_format(true), ProfileFormat::Conf));
}

#[test]
fn empty_conversions_are_refused() {
    assert_eq!(migration(true, false), Migration::Skip);
    assert_eq!(migration(true, true), Migration::Convert);
    assert_eq!(migration(false, false), Migration::Convert);
    assert_eq!(converted(0, true), Converted::Refuse);
    assert_eq!(converted(1, true), Converted::WouldWrite);
    assert_eq!(converted(1, false), Converted::Write);
}

#[test]
fn what_cannot_be_compared_is_said() {
    let good = Comparable {
        toml_exists: true,
        legacy_read: true,
        toml_read: true,
        legacy_parsed: true,
        toml_parsed: true,
        legacy_monitors: 0,
        toml_monitors: 2,
    };
    assert_eq!(verification(good), Verification::Compare);
    assert_eq!(verification(Comparable { toml_exists: false, ..good }), Verification::Skip);
    let complaint = |c: Comparable| match verification(c) {
        Verification::Complain(c) => c,
        other => panic!("{other:?}"),
    };
    assert_eq!(complaint(Comparable { legacy_read: false, ..good }), Complaint::LegacyUnread);
    assert_eq!(complaint(Comparable { toml_read: false, ..good }), Complaint::TomlUnread);
    assert_eq!(complaint(Comparable { legacy_parsed: false, ..good }), Complaint::LegacyUnparsed);
    assert_eq!(complaint(Comparable { toml_parsed: false, ..good }), Complaint::TomlUnparsed);
    assert_eq!(complaint(Comparable { toml_monitors: 0, ..good }), Complaint::NoMonitors);
    assert_eq!(Complaint::LegacyUnread.line("desk"), "desk: cannot read legacy file");
    assert_eq!(Complaint::TomlUnread.line("desk"), "desk: cannot read TOML file");
    assert_eq!(Complaint::LegacyUnparsed.line("desk"), "desk: cannot parse legacy file");
    assert_eq!(Complaint::TomlUnparsed.line("desk"), "desk: cannot parse TOML file");
    assert_eq!(
        Complaint::NoMonitors.line("desk"),
        "desk: resolves to zero monitors on both sides \u{2014} the layout was not preserved \
         (an empty-vs-empty comparison is not a match)"
    );
}

#[test]
fn profiles_that_can_be_switched_to() {
    let profile = |name: &str| Profile {
        name: name.to_string(),
        matches: vec![],
        edp: EdpPolicy::Auto,
        gpu: GpuPref::Auto,
        hooks: vec![],
        priority: 0,
    };
    assert_eq!(available_line(&vec![profile("a"), profile("b")]), "available: a, b");
    assert_eq!(available_line(&vec![]), "available: ");
    let list = vec![profile("a"), profile("b")];
    assert_eq!(switch_check(Some("b"), &list), SwitchCheck::Switch);
    assert_eq!(switch_check(Some("c"), &list), SwitchCheck::Unknown);
    assert_eq!(switch_check(None, &list), SwitchCheck::NoName);
    assert_eq!(SwitchCheck::Switch.code(), 0);
    assert_eq!(SwitchCheck::NoName.code(), 2);
    assert_eq!(SwitchCheck::Unknown.code(), 1);
    assert!(profile_applies(&strings(&["Dell"]), &strings(&["LG", "Dell U2723QE"])));
    assert!(!profile_applies(&strings(&["Dell", "BOE"]), &strings(&["Dell U2723QE"])));
    assert!(profile_applies(&vec![], &vec![]));
}

#[test]
fn the_end_of_a_comparison() {
    assert_eq!(dry_run_line(3), "3 profiles would be migrated");
    assert_eq!(
        verify_outcome(2, vec![]),
        (strings(&["2 profiles verified identical"]), 0)
    );
    assert_eq!(verify_outcome(2, strings(&["a", "b"])), (strings(&["a", "b"]), 1));
}

#[test]
fn profile_actions_and_their_refusal() {
    assert_eq!(profile_action("save"), Ok(ProfileAction::Save));
    assert_eq!(profile_action("list"), Ok(ProfileAction::List));
    assert_eq!(profile_action("current"), Ok(ProfileAction::Current));
    assert_eq!(profile_action("switch"), Ok(ProfileAction::Switch));
    assert_eq!(profile_action("migrate"), Ok(ProfileAction::Migrate));
    assert_eq!(profile_action("verify"), Ok(ProfileAction::Verify));
    assert_eq!(profile_action("drop"), Err(("unknown action: drop".to_string(), 2)));
    assert_eq!(profile_action(""), Err(("unknown action: ".to_string(), 2)));
    assert!(ProfileAction::Current.needs_live());
    assert!(!ProfileAction::Migrate.needs_live());
    assert!(!ProfileAction::Verify.needs_live());
}

#[test]
fn saving_and_switching_end_with_a_code() {
    assert_eq!(switch_code(true), 0);
    assert_eq!(switch_code(false), 1);
    assert_eq!(save_code(None), 0);
    for (failure, line) in [
        (SaveFailure::Capture, "capture failed: full"),
        (SaveFailure::Convert, "captured profile could not be converted: full"),
        (SaveFailure::Write, "write failed: full"),
        (SaveFailure::Render, "render write failed: full"),
    ] {
        assert_eq!(failure.line("full"), line);
        assert_eq!(save_code(Some(failure)), 1);
    }
    assert_eq!(Converted::Refuse.code(), 1);
    assert_eq!(Converted::WouldWrite.code(), 0);
    assert_eq!(Converted::Write.code(), 0);
}

fn migrated(events: &[FileEvent], dry_run: bool) -> Progress {
    let mut progress = start_migration(events.len(), dry_run);
    for ev in events {
        progress = migrate_step(progress, *ev, dry_run);
    }
    progress
}

#[test]
fn migrations_end_by_their_files() {
    let told = FileEvent::Converted(Converted::WouldWrite);
    let wrote = FileEvent::Converted(Converted::Write);
    assert_eq!(start_migration(0, false), Progress::Verify);
    assert_eq!(start_migration(0, true).code(), Some(0));
    let dry = migrated(&[told, FileEvent::Skipped, told], true);
    assert_eq!(dry, Progress::Told { converted: 2 });
    assert_eq!(dry.code(), Some(0));
    let real = migrated(&[wrote, FileEvent::Skipped], false);
    assert_eq!(real, Progress::Verify);
    assert_eq!(real.code(), None);
    assert_eq!(
        migrate_step(start_migration(3, false), wrote, false),
        Progress::Going { left: 2, converted: 1 }
    );
}

#[test]
fn the_first_failed_file_ends_a_migration() {
    for failure in [
        FileEvent::Unreadable,
        FileEvent::Unparsed,
        FileEvent::Converted(Converted::Refuse),
        FileEvent::WriteFailed,
    ] {
        for dry_run in [false, true] {
            let at = migrate_step(start_migration(3, dry_run), FileEvent::Skipped, dry_run);
            assert_eq!(at.code(), None);
            let end = migrate_step(at, failure, dry_run);
            assert_eq!(end, Progress::Failed);
            assert_eq!(end.code(), Some(1));
            assert_eq!(migrate_step(end, FileEvent::Skipped, dry_run), Progress::Failed);
        }
    }
}
