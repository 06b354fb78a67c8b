use hyprstate::gpu::{GpuMode, GpuModeSource};
use hyprstate::gpu_cli::{
    actual_line, desired_line, device_line, intent_lines, needs_settle, output_line,
    primary_card, summary_line, sync_line, validate,
};
use hyprstate::power::{LidMode, PowerPolicy, PowerProfile};
use hyprstate::power_cli::{
    applied_line, cycle_action, get_line, knob_lines, next_in_cycle, override_profile,
    policy_pydict, power_action, set_action, unavailable_lines, waybar_icon, waybar_line,
    PowerAction, SetAction,
};
use hyprstate::suspend::{
    exit_code, failure_line, is_own_request, lid_line, status_line, suspend_verb, unknown_action,
    SuspendVerb, BATTERY_LOW_REQUEST, IDLE_REQUEST,
};
use hyprstate::sysfs::read_first_word;

fn strings(v: &[&str]) -> Vec<String> {
    v.iter().map(|s| s.to_string()).collect()
}

#[test]
fn setting_a_power_profile() {
    assert_eq!(override_profile(Some("balanced")), Some(PowerProfile::Balanced));
    assert_eq!(override_profile(Some("turbo")), None);
    assert_eq!(override_profile(None), None);
    assert!(matches!(set_action(Some("auto")), SetAction::Clear));
    assert!(matches!(set_action(Some("turbo")), SetAction::Refuse));
    assert!(matches!(set_action(None), SetAction::Refuse));
    match set_action(Some("performance")) {
        SetAction::Write { content, said } => {
            assert_eq!(content, "performance\n");
            assert_eq!(
                said,
                "override: performance (clears when AC state changes; \
                 `hyprstate power set auto` to clear now)"
            );
        }
        other => panic!("{other:?}"),
    }
}

#[test]
fn cycling_closes() {
    let mut word = "auto";
    let mut seen = vec![];
    for _ in 0..4 {
        word = next_in_cycle(override_profile(Some(word)));
        seen.push(word);
    }
    assert_eq!(seen, vec!["power-saver", "balanced", "performance", "auto"]);
}

#[test]
fn four_cycles_go_round_in_the_file() {
    for start in [None, Some("turbo\n".to_string())] {
        let mut file: Option<String> = start;
        let mut seen = vec![];
        for _ in 0..4 {
            let action = cycle_action(read_first_word(file.as_deref()).as_deref());
            assert_eq!(action.code(true), 0);
            file = match action {
                SetAction::Clear => None,
                SetAction::Write { content, .. } => Some(content),
                SetAction::Refuse => panic!("a value of the cycle is refused"),
            };
            seen.push(read_first_word(file.as_deref()));
        }
        let word = |w: &str| Some(w.to_string());
        assert_eq!(seen, vec![word("power-saver"), word("balanced"), word("performance"), None]);
    }
}

#[test]
fn power_actions_and_their_codes() {
    assert_eq!(power_action("set"), Ok(PowerAction::SetTo));
    assert_eq!(power_action("cycle"), Ok(PowerAction::Cycle));
    assert_eq!(power_action("get"), Ok(PowerAction::Get));
    assert_eq!(power_action("status"), Ok(PowerAction::Status));
    assert_eq!(power_action("boost"), Err(("unknown action: boost".to_string(), 2)));
    assert_eq!(set_action(Some("auto")).code(true), 0);
    assert_eq!(set_action(Some("auto")).code(false), 0);
    assert_eq!(set_action(Some("balanced")).code(true), 0);
    assert_eq!(set_action(Some("balanced")).code(false), 1);
    assert_eq!(set_action(Some("turbo")).code(true), 2);
    assert_eq!(set_action(None).code(false), 2);
}

#[test]
fn the_selection_in_one_line() {
    let one = strings(&["/dev/dri/card1"]);
    let two = strings(&["/dev/dri/card2", "/dev/dri/card1"]);
    let line = |actual: &Option<Vec<String>>, desired: &Option<Vec<String>>| {
        summary_line(actual, desired, GpuMode::Auto, "dgpu-has-display")
    };
    assert_eq!(
        line(&Some(one.clone()), &Some(one.clone())),
        "gpu: primary=card1 mode=auto reason=dgpu-has-display \u{2014} in sync"
    );
    assert_eq!(
        line(&Some(one.clone()), &Some(two)),
        "gpu: primary=card1 mode=auto reason=dgpu-has-display \u{2014} \
         MISMATCH (relog to apply: /dev/dri/card2:/dev/dri/card1)"
    );
    assert_eq!(
        line(&Some(one.clone()), &None),
        "gpu: primary=card1 mode=auto reason=dgpu-has-display \u{2014} unmanaged"
    );
    for actual in [None, Some(vec![])] {
        assert_eq!(
            line(&actual, &Some(one.clone())),
            "gpu: primary=unknown mode=auto reason=dgpu-has-display \u{2014} unmanaged"
        );
    }
}

#[test]
fn the_policy_in_words() {
    let policy = PowerPolicy::default();
    assert_eq!(
        policy_pydict(&policy),
        "{'docked-ac': 'balanced', 'ac': 'balanced', 'battery': 'power-saver', \
         'battery-low': 'power-saver'}"
    );
    assert_eq!(get_line(Some(PowerProfile::Balanced), &policy), "override: balanced");
    assert_eq!(get_line(None, &policy), format!("auto (policy: {})", policy_pydict(&policy)));
}

#[test]
fn lines_for_the_status_bar() {
    assert_eq!(waybar_icon("power-saver"), "\u{f0fb6}");
    assert_eq!(waybar_icon("balanced"), "\u{f0fb5}");
    assert_eq!(waybar_icon("performance"), "\u{f04c5}");
    assert_eq!(waybar_icon("other"), "other");
    let shown: serde_json::Value =
        serde_json::from_str(&waybar_line(Some("balanced"), true)).unwrap();
    assert_eq!(shown["text"], "\u{f0fb5}");
    assert_eq!(shown["tooltip"], "power: balanced (override)");
    assert_eq!(shown["class"], "override balanced");
    assert_eq!(
        waybar_line(None, false),
        "{\"class\":\"unavailable\",\"text\":\"\u{26a1}?\",\"tooltip\":\"powerd unavailable\"}"
    );
    // Whatever the service says, the line is one document.
    let odd: serde_json::Value = serde_json::from_str(&waybar_line(Some("a\"b\n"), false)).unwrap();
    assert_eq!(odd["text"], "a\"b\n");
    assert_eq!(odd["class"], "auto a\"b\n");
}

#[test]
fn the_status_of_the_power_service() {
    assert_eq!(applied_line("balanced", false), "applied : balanced (auto)");
    assert_eq!(applied_line("balanced", true), "applied : balanced (override)");
    assert_eq!(
        knob_lines(&strings(&["boost", "aspm"]), &strings(&["1", "default"])),
        vec![
            "  aspm                               default",
            "  boost                              1",
        ]
    );
    assert_eq!(unavailable_lines("gone", None), vec!["powerd : unavailable (gone)"]);
    assert_eq!(
        unavailable_lines("gone", Some(PowerProfile::PowerSaver)),
        vec!["powerd : unavailable (gone)", "override: power-saver"]
    );
}

#[test]
fn selection_settles_once() {
    assert!(needs_settle("select", &None, "bailed-transient"));
    assert!(!needs_settle("check", &None, "bailed-transient"));
    assert!(!needs_settle("select", &None, "off"));
    assert!(!needs_settle("select", &Some(vec![]), "bailed-transient"));
}

#[test]
fn a_list_with_a_missing_device_is_dropped_whole() {
    let list = strings(&["/dev/dri/card1", "/dev/dri/card2"]);
    assert_eq!(
        validate(Some(list.clone()), "auto".to_string(), &vec![true, false]),
        (None, "validation-failed".to_string())
    );
    assert_eq!(
        validate(Some(list.clone()), "auto".to_string(), &vec![true, true]),
        (Some(list.clone()), "auto".to_string())
    );
    assert_eq!(validate(None, "off".to_string(), &vec![]), (None, "off".to_string()));
    assert_eq!(device_line(&Some(list)), Some("/dev/dri/card1:/dev/dri/card2".to_string()));
    assert_eq!(device_line(&None), None);
}

#[test]
fn the_status_of_a_gpu_selection() {
    let one = strings(&["/dev/dri/card1"]);
    assert_eq!(
        intent_lines("auto", "ranked", &one),
        (
            "intent : mode=auto reason=ranked".to_string(),
            "         devices=/dev/dri/card1".to_string()
        )
    );
    assert_eq!(intent_lines("off", "off", &vec![]).1, "         devices=(none)");
    assert_eq!(actual_line(&None), "actual : (no Hyprland session found)");
    assert_eq!(
        actual_line(&Some(vec![])),
        "actual : (compositor defaults \u{2014} AQ_DRM_DEVICES unset)"
    );
    assert_eq!(actual_line(&Some(one.clone())), "actual : /dev/dri/card1");
    assert_eq!(
        desired_line(&None, "off", GpuMode::Off, GpuModeSource::Override),
        "desired: (unmanaged \u{2014} off)"
    );
    assert_eq!(
        desired_line(&Some(one.clone()), "why", GpuMode::Igpu, GpuModeSource::Override),
        "desired: /dev/dri/card1  (mode=igpu/override, why)"
    );
    assert_eq!(sync_line(&Some(one.clone()), &Some(one.clone())), Some("sync   : in sync"));
    assert_eq!(
        sync_line(&Some(vec![]), &Some(one.clone())),
        Some("sync   : MISMATCH \u{2014} relog to apply")
    );
    assert_eq!(sync_line(&None, &Some(one.clone())), None);
    assert_eq!(primary_card(&Some(one)), Some("card1".to_string()));
    assert_eq!(primary_card(&Some(vec![])), None);
    assert_eq!(
        output_line("DP-3", "card1", Some("card1")),
        "         DP-3     card1  render-local (no copy)"
    );
    assert_eq!(
        output_line("DP-3", "card2", Some("card1")),
        "         DP-3     card2  COPY PATH card2->card1"
    );
    assert_eq!(output_line("DP-3", "card2", None), "         DP-3     card2  render GPU unknown");
}

#[test]
fn suspend_requests() {
    assert_eq!(suspend_verb("request"), Some(SuspendVerb::Request));
    assert_eq!(suspend_verb("cancel"), Some(SuspendVerb::Cancel));
    assert_eq!(suspend_verb("status"), Some(SuspendVerb::Status));
    assert_eq!(suspend_verb("now"), None);
    assert_eq!(unknown_action("now\n"), "hyprstate suspend: unknown action \"now\\n\"");
    assert_eq!(exit_code(SuspendVerb::Request, false, false), 0);
    assert_eq!(exit_code(SuspendVerb::Request, true, true), 1);
    assert_eq!(exit_code(SuspendVerb::Cancel, true, true), 0);
    assert_eq!(exit_code(SuspendVerb::Cancel, true, false), 1);
    assert_eq!(
        failure_line(SuspendVerb::Cancel, "/run/x", "denied"),
        "hyprstate suspend cancel: /run/x: denied"
    );
    assert_eq!(status_line(true, "/run/x"), "idle-suspend request: standing (/run/x)");
    assert_eq!(status_line(false, "/run/x"), "idle-suspend request: none");
    assert_eq!(
        lid_line(LidMode::Absent),
        "lid: absent (power.conf) \u{2014} no handle-lid-switch inhibitor expected"
    );
    assert_eq!(
        lid_line(LidMode::Present),
        "lid: present \u{2014} handle-lid-switch inhibitor held by hyprstate"
    );
}

#[test]
fn requests_are_told_apart_by_their_content() {
    assert!(is_own_request(Some(BATTERY_LOW_REQUEST)));
    assert!(!is_own_request(Some(IDLE_REQUEST)));
    assert!(!is_own_request(None));
}
