use hyprstate::profile_cli::{legacy_files, list_lines, valid_name};
use hyprstate::profile_store::{
    active_profile_name, dir_has_legacy, extension, file_name, file_stem, format_of,
    load_profiles_merged,
    monitor_signature, needs_write, profiles_source_fingerprint, repoint_active_profile,
    temporary_path, twin_path, with_extension, LegacyEntry, ProfileFormat, SourceFile,
};
use hyprstate::profiles::{EdpPolicy, GpuPref, Profile};
use hyprstate::toml_profile::{find_profile, select_profile, TomlProfile};

fn profile(name: &str, output: &str) -> TomlProfile {
    TomlProfile {
        inner: Profile {
            name: name.to_string(),
            matches: vec![output.to_string()],
            edp: EdpPolicy::Auto,
            gpu: GpuPref::Auto,
            hooks: vec![],
            priority: 1,
        },
        layout: format!("[[monitor]]\noutput = \"{output}\"\nmode = \"1920x1080@60\"\n"),
    }
}

/// The system directory is what the greeter reads, so the session must see the same
/// profiles from it, and a same-named user profile must still win.
#[test]
fn system_profiles_merge_and_user_wins_on_name() {
    let user = vec![profile("desk", "DP-1")];
    let system = vec![profile("desk", "HDMI-A-1"), profile("shared-only", "DP-9")];
    let profiles = load_profiles_merged(user, &system);
    let mut names: Vec<_> = profiles.iter().map(|p| p.inner.name.clone()).collect();
    names.sort();
    assert_eq!(names, vec!["desk", "shared-only"]);
    let desk = profiles.iter().find(|p| p.inner.name == "desk").unwrap();
    assert!(
        desk.layout.contains("output = \"DP-1\""),
        "the user's profile must win over the system one"
    );
}

#[test]
fn absent_system_dir_is_harmless() {
    let profiles = load_profiles_merged(vec![profile("solo", "DP-1")], &vec![]);
    assert_eq!(profiles.len(), 1);
    assert_eq!(profiles[0].inner.name, "solo");
}

/// The Lua twin is what the session loads, so it is what migration must read.
#[test]
fn lua_twin_displaces_conf_for_migration() {
    let dir: Vec<String> = ["desk.conf", "desk.lua", "solo.conf"]
        .iter()
        .map(|s| s.to_string())
        .collect();
    let names = legacy_files(&dir, None);
    assert_eq!(names, vec!["desk.lua", "solo.conf"]);
}

/// Names may sort between twins: the Lua file still displaces the other.
#[test]
fn twins_need_not_stand_side_by_side() {
    let list = |names: &[&str]| -> Vec<String> { names.iter().map(|s| s.to_string()).collect() };
    let dir = list(&["desk.conf", "desk.d.conf", "desk.lua"]);
    assert_eq!(legacy_files(&dir, None), vec!["desk.d.conf", "desk.lua"]);
    assert_eq!(legacy_files(&dir, Some("desk")), vec!["desk.lua"]);
    assert_eq!(legacy_files(&dir, Some("desk.d")), vec!["desk.d.conf"]);
    let dir = list(&["a.lua", "b.conf", "a.conf", "a.conf.lua", "a.k.lua"]);
    assert_eq!(legacy_files(&dir, None), vec!["a.conf.lua", "a.k.lua", "a.lua", "b.conf"]);
}

#[test]
fn legacy_files_are_filtered_and_sorted() {
    let dir: Vec<String> = ["z.lua", ".active.lua", "notes.txt", "a.conf", "a.toml", "z.conf"]
        .iter()
        .map(|s| s.to_string())
        .collect();
    assert_eq!(legacy_files(&dir, None), vec!["a.conf", "z.lua"]);
    assert_eq!(legacy_files(&dir, Some("a")), vec!["a.conf"]);
    assert!(legacy_files(&dir, Some("q")).is_empty());
}

#[test]
fn rendered_files_are_no_legacy() {
    let entry = |name: &str, content: Option<&str>| LegacyEntry {
        name: name.to_string(),
        content: content.map(str::to_string),
    };
    assert!(dir_has_legacy(&vec![entry("a.conf", Some("#@ match = A\n"))]));
    assert!(!dir_has_legacy(&vec![entry("a.lua", Some("-- Do not edit\n"))]));
    assert!(!dir_has_legacy(&vec![entry(".active.conf", Some("#@ match = A\n"))]));
    assert!(!dir_has_legacy(&vec![entry("a.conf", None)]));
    assert!(!dir_has_legacy(&vec![entry("a.txt", Some("x"))]));
}

#[test]
fn file_names_are_taken_apart() {
    assert_eq!(extension("a.b.conf"), Some("conf"));
    assert_eq!(extension(".conf"), None);
    assert_eq!(extension("plain"), None);
    assert_eq!(extension(".active.lua"), Some("lua"));
    assert_eq!(extension("a."), Some(""));
    assert_eq!(file_stem("a.b.conf"), "a.b");
    assert_eq!(file_stem(".conf"), ".conf");
    assert_eq!(format_of("x.lua"), Some(ProfileFormat::Lua));
    assert_eq!(format_of("x.conf"), Some(ProfileFormat::Conf));
    assert_eq!(format_of("x.toml"), None);
    assert_eq!(format_of("/p/x.lua/"), Some(ProfileFormat::Lua));
    assert_eq!(with_extension("/p/desk.toml", "lua"), "/p/desk.lua");
    assert_eq!(temporary_path("/p/desk.toml", 42), "/p/desk.toml.tmp-42");
}

/// The library takes paths apart as the standard library does.
#[test]
fn paths_are_taken_apart_as_std_does() {
    for path in [
        "", "/", "//", ".", "..", "./", "/.", "./.", "../", "a/..", "a/../", "a", "a/", "a//",
        "a/.", "a/./", "a/.//.", "a.", "a./", "a..", "a/...", "...", "/a.b", "/a.b/", "a.b/c",
        "a.b/.", ".a", ".a/", ".a.b", "..a", "p/.a.b/./", "./a.b", "d.tar.gz", "d.tar.gz//",
        "desk.lua/", "/p/desk.lua/.", "\u{e9}.\u{e8}/", "a/./b.c", "x/-.-/",
    ] {
        let std = std::path::Path::new(path);
        assert_eq!(file_name(path), std.file_name().and_then(|n| n.to_str()), "{path:?}");
        assert_eq!(
            format_of(path),
            match std.extension().and_then(|e| e.to_str()) {
                Some("lua") => Some(ProfileFormat::Lua),
                Some("conf") => Some(ProfileFormat::Conf),
                _ => None,
            },
            "{path:?}"
        );
        for ext in ["", "c", "conf", "toml.tmp-42"] {
            let mut want = std.to_path_buf();
            want.set_extension(ext);
            assert_eq!(with_extension(path, ext), want.to_str().unwrap(), "{path:?} {ext:?}");
        }
        assert_eq!(
            active_profile_name(Some(path), Some("/p/z.conf")),
            std.file_stem().or(Some("z".as_ref())).and_then(|s| s.to_str()).map(str::to_string),
            "{path:?}"
        );
    }
}

#[test]
fn the_lua_link_wins() {
    assert_eq!(active_profile_name(Some("a.lua"), Some("b.conf")), Some("a".to_string()));
    assert_eq!(active_profile_name(None, Some("b.conf")), Some("b".to_string()));
    assert_eq!(active_profile_name(None, None), None);
}

#[test]
fn both_dialects_are_repointed() {
    let links = repoint_active_profile("/p/desk.lua", true).unwrap();
    assert_eq!(links.len(), 2);
    assert_eq!(links[0].format, ProfileFormat::Lua);
    assert_eq!(links[0].target, "/p/desk.lua");
    assert_eq!(links[1].format, ProfileFormat::Conf);
    assert_eq!(links[1].target, "/p/desk.conf");
    assert_eq!(repoint_active_profile("/p/desk.conf", false).unwrap().len(), 1);
    let err = repoint_active_profile("/p/desk.toml", false).unwrap_err();
    assert_eq!(err, "profile target has no .conf/.lua extension: /p/desk.toml");
    assert_eq!(twin_path("/p/desk.lua"), Some("/p/desk.conf".to_string()));
    assert_eq!(twin_path("/p/desk"), None);
    // A path that ends in a separator names the same file.
    let links = repoint_active_profile("desk.lua/", true).unwrap();
    assert_eq!(links[0].format, ProfileFormat::Lua);
    assert_eq!(links[0].target, "desk.lua/");
    assert_eq!(links[1].format, ProfileFormat::Conf);
    assert_eq!(links[1].target, "desk.conf");
    assert_eq!(twin_path("/p/desk.conf/."), Some("/p/desk.lua".to_string()));
    assert_eq!(temporary_path("/p/desk.toml/", 7), "/p/desk.toml.tmp-7");
    assert!(repoint_active_profile("/p/desk.lua/..", false).is_err());
}

#[test]
fn the_signature_is_read_from_the_answer() {
    let reply = br#"[{"description":"Dell U2723QE"},{"name":"eDP-1"},{"description":7}]"#;
    assert_eq!(monitor_signature(reply), vec!["Dell U2723QE", "", ""]);
    assert!(monitor_signature(b"nonsense").is_empty());
    assert!(monitor_signature(b"{}").is_empty());
}

#[test]
fn only_profiles_count_for_the_fingerprint() {
    let file = |path: &str, len: u64| SourceFile {
        path: path.to_string(),
        len: Some(len),
        modified: Some((1, 2)),
    };
    let none: Vec<SourceFile> = vec![];
    let a = profiles_source_fingerprint("/etc", &none, "/u", &vec![file("/u/a.toml", 1)]);
    let b = profiles_source_fingerprint("/etc", &none, "/u", &vec![file("/u/a.toml", 2)]);
    let c = profiles_source_fingerprint(
        "/etc",
        &none,
        "/u",
        &vec![file("/u/z.txt", 9), file("/u/a.toml", 1)],
    );
    assert_ne!(a, b);
    assert_eq!(a, c);
    let d = profiles_source_fingerprint(
        "/etc",
        &none,
        "/u",
        &vec![file("/u/b.toml", 1), file("/u/a.toml", 1)],
    );
    let e = profiles_source_fingerprint(
        "/etc",
        &none,
        "/u",
        &vec![file("/u/a.toml", 1), file("/u/b.toml", 1)],
    );
    assert_eq!(d, e);
}

#[test]
fn unchanged_files_are_not_written() {
    assert!(!needs_write(Some("x"), "x"));
    assert!(needs_write(Some("x"), "y"));
    assert!(needs_write(None, "x"));
}

#[test]
fn names_stay_in_the_directory() {
    for ok in ["desk", "a-b_c.d", "X9"] {
        assert!(valid_name(ok), "{ok}");
    }
    for bad in ["", ".hidden", "a/b", "a b", "caf\u{e9}"] {
        assert!(!valid_name(bad), "{bad}");
    }
}

#[test]
fn profiles_are_listed_by_priority() {
    let mut low = profile("low", "A").inner;
    low.priority = 1;
    let mut high = profile("high", "B").inner;
    high.priority = 5;
    let mut twin = profile("twin", "A").inner;
    twin.priority = 1;
    let lines = list_lines(&vec![low, high, twin], &vec!["A 1".to_string()]);
    assert_eq!(
        lines,
        vec![
            "  [ ] high                         prio=5 edp=auto    match=[B]",
            "  [\u{2713}] low                          prio=1 edp=auto    match=[A]",
            "  [\u{2713}] twin                         prio=1 edp=auto    match=[A]",
        ]
    );
}

#[test]
fn selection_brings_the_layout_along() {
    let mut desk = profile("desk", "Dell");
    desk.inner.priority = 5;
    let list = vec![profile("laptop", "BOE"), desk];
    let signature = vec!["BOE 0x0BC9".to_string(), "Dell U2723QE".to_string()];
    let picked = select_profile(&signature, &list).unwrap();
    assert_eq!(picked.inner.name, "desk");
    assert!(picked.layout.contains("Dell"));
    assert!(select_profile(&vec!["LG".to_string()], &list).is_none());
    assert_eq!(find_profile(&list, "laptop").unwrap().inner.matches, vec!["BOE"]);
    assert!(find_profile(&list, "tv").is_none());
}

#[test]
fn sources_that_differ_in_the_layout_differ() {
    let a = profile("desk", "DP-1");
    let mut b = a.clone();
    assert!(a.same(&b));
    b.layout.push_str("scale = 2\n");
    assert!(!a.same(&b));
}
