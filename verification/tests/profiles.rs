use hyprstate::profiles::{
    match_in_signature, parse_directive, parse_profile, select_profile, EdpPolicy, GpuPref, Profile,
};


fn parse(name: &str, text: &str) -> Result<(Profile, Vec<String>), String> {
    parse_profile(name, text)
}

#[test]
fn test_parse_profile_full() {
    let (prof, warnings) = parse(
        "desk",
        "#@ match = desc:Dell U2723QE\n\
         #@ match = desc:LG HDR 4K\n\
         #@ edp = disable\n\
         #@ gpu = dgpu\n\
         #@ hook = notify-send applied\n\
         #@ priority = 10\n\
         monitor = desc:Dell U2723QE, 3840x2160@60, 0x0, 1.5\n",
    )
    .unwrap();
    assert_eq!(prof.name, "desk");
    assert_eq!(prof.matches, vec!["desc:Dell U2723QE", "desc:LG HDR 4K"]);
    assert_eq!(prof.edp, EdpPolicy::Disable);
    assert_eq!(prof.gpu, GpuPref::Dgpu);
    assert_eq!(prof.hooks, vec!["notify-send applied"]);
    assert_eq!(prof.priority, 10);
    assert!(warnings.is_empty());
}

#[test]
fn test_parse_profile_default_priority_is_match_count() {
    let (prof, _) = parse("two", "#@ match = A\n#@ match = B\n").unwrap();
    assert_eq!(prof.priority, 2);
}

#[test]
fn test_parse_profile_directives_stop_at_body() {
    let (prof, _) = parse(
        "body",
        "#@ match = A\nmonitor = something\n#@ edp = disable\n",
    )
    .unwrap();
    assert_eq!(prof.edp, EdpPolicy::Auto); // post-body directive ignored
}

#[test]
fn test_malformed_profiles_are_rejected() {
    // No match directives at all.
    assert!(parse("bad", "monitor = no directives at all\n").is_err());
    // Invalid edp value.
    assert!(parse("bad", "#@ match = A\n#@ edp = sideways\n").is_err());
    // Invalid gpu value.
    assert!(parse("bad", "#@ match = A\n#@ gpu = both\n").is_err());
    // Non-integer priority.
    assert!(parse("bad", "#@ match = A\n#@ priority = high\n").is_err());
}

#[test]
fn test_malformed_and_unknown_directives_warn_but_tolerate() {
    let (prof, warnings) =
        parse("tolerant", "#@ match = A\n#@ !!bad line\n#@ mystery = 7\n").unwrap();
    assert_eq!(prof.matches, vec!["A"]);
    assert_eq!(warnings.len(), 2);
}

/// Hyphenated keys are only legal with allow_hyphen (the power.conf
/// dialect) — "battery-low" must not parse as a profile directive key.
#[test]
fn test_directive_key_charsets() {
    assert!(parse_directive("#@ battery-low = x", false).is_none());
    assert_eq!(
        parse_directive("#@ battery-low = x", true),
        Some(("battery-low", "x"))
    );
    assert_eq!(parse_directive("#@match=x", false), Some(("match", "x")));
    assert!(parse_directive("#@ match = ", false).is_none());
    assert!(parse_directive("#@ Match = x", false).is_none());
}

fn prof(name: &str, matches: &[&str], priority: Option<i64>) -> Profile {
    Profile {
        name: name.to_string(),
        priority: priority.unwrap_or(matches.len() as i64),
        matches: matches.iter().map(|s| s.to_string()).collect(),
        edp: EdpPolicy::Auto,
        gpu: GpuPref::Auto,
        hooks: vec![],
    }
}

fn sig(descs: &[&str]) -> Vec<String> {
    descs.iter().map(|s| s.to_string()).collect()
}

#[test]
fn test_select_profile_requires_all_matches() {
    let signature = sig(&["Dell U2723QE ABC123", "BOE 0x0BCA"]);
    let both = prof("both", &["Dell U2723QE", "BOE"], None);
    let other = prof("other", &["LG HDR 4K"], None);
    let profiles = vec![both.clone(), other];
    assert_eq!(select_profile(&signature, &profiles).unwrap().name, "both");
    let partial = sig(&["BOE 0x0BCA"]);
    assert!(select_profile(&partial, &[both]).is_none());
}

#[test]
fn test_select_profile_specificity_then_explicit_priority() {
    let signature = sig(&["Dell U2723QE", "LG HDR 4K"]);
    let one = prof("one", &["Dell U2723QE"], None);
    let two = prof("two", &["Dell U2723QE", "LG HDR 4K"], None);
    let profiles = vec![one.clone(), two.clone()];
    // More matches wins (default priority = match count).
    assert_eq!(select_profile(&signature, &profiles).unwrap().name, "two");
    let pinned = prof("pinned", &["LG HDR 4K"], Some(99));
    let profiles = vec![one, two, pinned];
    assert_eq!(
        select_profile(&signature, &profiles).unwrap().name,
        "pinned"
    );
}

#[test]
fn test_match_strips_desc_prefix_and_uses_startswith() {
    let signature = sig(&["Dell U2723QE HJKL (DP-3)"]);
    assert!(match_in_signature("desc:Dell U2723QE", &signature));
    assert!(match_in_signature("Dell U2723QE", &signature));
    assert!(!match_in_signature("U2723QE", &signature)); // not a prefix
}
