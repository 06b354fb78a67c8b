use hyprstate::ctx::{Backlight, Context};
use hyprstate::effectors::{plan, rehome_plan, Cmd, Topic};
use hyprstate::event::Event;
use hyprstate::gpu_drift::{
    advice_message, gpu_drift_check, overlay_word, see_reason, see_session, GPU_NOTIFY_MIN,
};
use hyprstate::hyprctl::{
    any_enabled_monitor_dpms_off_in, cursor_pos, edp_is_disabled_in, ext_monitor_count_in,
    first_external_monitor, live_locker, locked_reply, monitor_signature, session_is_locked,
    workspaces_on_monitor, MonitorSnapshot,
};
use hyprstate::power::{BaseState, PowerProfile};
use hyprstate::power_policy::{
    brightness_cap, brightness_edges, brightness_restore, brightness_save_and_cap, check_override,
    clamp_level, expiry_message, BrightnessStep, OverrideOutcome,
};
use hyprstate::profiles::GpuPref;

fn strings(v: &[&str]) -> Vec<String> {
    v.iter().map(|s| s.to_string()).collect()
}

fn json(s: &str) -> serde_json::Value {
    serde_json::from_str(s).unwrap()
}

fn monitor(name: &str, disabled: bool, dpms_status: bool) -> MonitorSnapshot {
    MonitorSnapshot {
        name: name.to_string(),
        description: format!("{name} Inc."),
        disabled,
        dpms_status,
    }
}

#[test]
fn monitors_of_the_session() {
    let all = [monitor("eDP-2", true, false), monitor("DP-1", false, true)];
    assert_eq!(ext_monitor_count_in(Some(&all), 5), 1);
    assert_eq!(ext_monitor_count_in(None, 5), 5);
    assert_eq!(monitor_signature(Some(&all)), vec!["eDP-2 Inc.", "DP-1 Inc."]);
    assert!(monitor_signature(None).is_empty());
    assert_eq!(edp_is_disabled_in(&all), Some(true));
    assert_eq!(edp_is_disabled_in(&all[1..]), None);
    // A disabled panel is always dark, and counts for nothing.
    assert!(!any_enabled_monitor_dpms_off_in(&all));
    assert!(any_enabled_monitor_dpms_off_in(&[monitor("DP-1", false, false)]));
}

#[test]
fn the_lock_as_the_compositor_sees_it() {
    assert_eq!(session_is_locked(true, b"true\n"), Some(true));
    assert_eq!(session_is_locked(true, b" false"), Some(false));
    assert_eq!(session_is_locked(true, b"maybe"), None);
    assert_eq!(session_is_locked(true, b"tru\xff"), None);
    assert_eq!(session_is_locked(false, b"true\n"), None);
    assert_eq!(locked_reply(true, "true"), Some(true));
    assert_eq!(locked_reply(false, "true"), None);
}

#[test]
fn a_locker_lives_where_the_compositor_says_so() {
    assert!(live_locker(Some(true), Some(true)));
    assert!(!live_locker(Some(true), Some(false)));
    assert!(!live_locker(Some(false), Some(false)));
}

#[test]
fn the_cursor() {
    assert_eq!(cursor_pos(b"{\"x\": 12, \"y\": -3}"), Some((12, -3)));
    assert_eq!(cursor_pos(b"{\"x\": 12}"), None);
    assert_eq!(cursor_pos(b"{\"x\": 1.5, \"y\": 2}"), None);
    assert_eq!(cursor_pos(b"[]"), None);
    assert_eq!(cursor_pos(b"no json"), None);
}

#[test]
fn stranded_workspaces() {
    let reply = json(
        "[{\"id\": 1, \"monitor\": \"eDP-2\"}, {\"id\": 2, \"monitor\": \"DP-1\"}, \
          {\"id\": -98, \"monitor\": \"eDP-2\"}, {\"id\": 4, \"monitor\": \"eDP-2\"}, \
          {\"monitor\": \"eDP-2\"}, {\"id\": 5}]",
    );
    assert_eq!(workspaces_on_monitor(Some(&reply), "eDP-2"), vec![1, 4]);
    assert!(workspaces_on_monitor(None, "eDP-2").is_empty());
    assert!(workspaces_on_monitor(Some(&json("{}")), "eDP-2").is_empty());
    let monitors = json("[{\"name\": \"eDP-2\"}, {\"id\": 3}, {\"name\": \"DP-1\"}]");
    assert_eq!(first_external_monitor(Some(&monitors)), Some("DP-1".to_string()));
    assert_eq!(first_external_monitor(Some(&json("[{\"name\": \"eDP-1\"}]"))), None);
    assert_eq!(first_external_monitor(None), None);
    let moves = rehome_plan(&vec![1, 4], &Some("DP-1".to_string()));
    assert_eq!(moves.len(), 2);
    assert_eq!(moves[1].program, "hyprctl");
    assert_eq!(moves[1].args, vec!["dispatch", "moveworkspacetomonitor", "4 DP-1"]);
    assert!(rehome_plan(&vec![1], &None).is_empty());
}

#[test]
fn effects_are_run_as_commands() {
    let line = |cmd: Cmd<String>, disabled: Option<bool>| {
        plan(&cmd, disabled).map(|i| format!("{} {}", i.program, i.args.join("|")))
    };
    assert_eq!(line(Cmd::SetEdp { on: true }, Some(true)), Some("hyprctl reload".to_string()));
    assert_eq!(
        line(Cmd::SetEdp { on: false }, Some(false)),
        Some("hyprctl keyword|monitor|eDP-2,disable".to_string())
    );
    for (on, disabled) in [(true, Some(false)), (false, Some(true)), (true, None), (false, None)] {
        assert_eq!(line(Cmd::SetEdp { on }, disabled), None);
    }
    assert_eq!(line(Cmd::Reload, None), Some("hyprctl reload".to_string()));
    assert_eq!(line(Cmd::DpmsOn, None), Some("hyprctl dispatch|dpms|on".to_string()));
    assert_eq!(line(Cmd::PauseMedia, None), Some("playerctl --all-players|pause".to_string()));
    assert_eq!(
        line(Cmd::RunHook("~/x.sh".to_string()), None),
        Some("bash -lc|~/x.sh".to_string())
    );
    assert_eq!(
        line(Cmd::Notify { topic: Topic::Gpu, body: "b".to_string() }, None),
        Some(
            "notify-send -a|hyprstate|-h|string:x-canonical-private-synchronous:hyprstate-gpu|\
             GPU selection drift|b"
                .to_string()
        )
    );
    assert_eq!(line(Cmd::RehomeWorkspaces, None), None);
}

#[test]
fn advice_is_given_once_and_not_too_often() {
    let mut gpu = Context::default().gpu;
    let one = Some(strings(&["/dev/dri/card1"]));
    let two = Some(strings(&["/dev/dri/card2"]));
    gpu.pending = true;
    assert!(!gpu_drift_check(&mut gpu, &one, 0), "nothing is known of the session yet");
    assert!(!see_session(&mut gpu, one.clone()));
    assert!(!gpu.pending);
    assert!(!gpu_drift_check(&mut gpu, &one, 0));
    assert!(!gpu_drift_check(&mut gpu, &None, 0));
    assert!(gpu_drift_check(&mut gpu, &two, 10));
    assert!(!gpu_drift_check(&mut gpu, &two, 10 + 2 * GPU_NOTIFY_MIN));
    // Agreement arms the advice again, but not before its time.
    assert!(!gpu_drift_check(&mut gpu, &one, 11));
    assert!(!gpu_drift_check(&mut gpu, &two, 9 + GPU_NOTIFY_MIN));
    assert!(gpu_drift_check(&mut gpu, &two, 10 + GPU_NOTIFY_MIN));
}

#[test]
fn an_empty_list_asks_for_the_reason() {
    let mut gpu = Context::default().gpu;
    gpu.pending = true;
    assert!(!see_session(&mut gpu, None));
    assert!(gpu.pending);
    assert!(see_session(&mut gpu, Some(vec![])));
    see_reason(&mut gpu, Some("bailed-transient"));
    assert_eq!(gpu.actual, Some(vec![]));
    // A display that appears later is worth a word.
    assert!(gpu_drift_check(&mut gpu, &Some(strings(&["/dev/dri/card1"])), 0));
    let mut off = Context::default().gpu;
    see_reason(&mut off, Some("off"));
    assert_eq!(off.actual, None);
}

#[test]
fn advice_in_words() {
    assert_eq!(
        advice_message(&strings(&["/dev/dri/card2", "/dev/dri/card1"]), "why", "docked", true),
        "docked: a relog would switch rendering to card2 (why)"
    );
    assert!(advice_message(&strings(&["c"]), "why", "docked", false).ends_with("on battery"));
    assert_eq!(overlay_word(GpuPref::Auto), None);
    assert_eq!(overlay_word(GpuPref::Dgpu), Some("dgpu"));
}

#[test]
fn overrides_end_with_the_charger() {
    let mut power = Context::default().power;
    assert_eq!(check_override(&mut power, BaseState::Ac), OverrideOutcome::Untouched);
    power.manual = Some(PowerProfile::Performance);
    assert_eq!(check_override(&mut power, BaseState::Ac), OverrideOutcome::Stamped);
    assert_eq!(check_override(&mut power, BaseState::DockedAc), OverrideOutcome::Untouched);
    assert_eq!(check_override(&mut power, BaseState::Battery), OverrideOutcome::Expired);
    assert_eq!(power.manual, None);
    power.manual = Some(PowerProfile::Performance);
    assert_eq!(check_override(&mut power, BaseState::Battery), OverrideOutcome::Stamped);
    assert_eq!(check_override(&mut power, BaseState::BatteryLow), OverrideOutcome::Expired);
    assert_eq!(
        expiry_message(PowerProfile::PowerSaver, BaseState::Battery),
        "Power override cleared \u{2014} back to automatic (power-saver on battery)"
    );
}

fn light(max: u32) -> Backlight {
    Backlight { dev: Some("bl".to_string()), max, set: None, saved: None }
}

#[test]
fn brightness_follows_the_edges() {
    let mut power = Context::default().power;
    assert!(brightness_edges(&mut power, BaseState::Ac).is_empty());
    assert_eq!(
        brightness_edges(&mut power, BaseState::BatteryLow),
        vec![BrightnessStep::SaveAndCap, BrightnessStep::Cap]
    );
    assert!(brightness_edges(&mut power, BaseState::BatteryLow).is_empty());
    assert!(brightness_edges(&mut power, BaseState::Battery).is_empty());
    assert_eq!(brightness_edges(&mut power, BaseState::Ac), vec![BrightnessStep::Restore]);
}

#[test]
fn replugging_brings_the_level_back() {
    let mut l = light(400);
    assert_eq!(brightness_save_and_cap(&mut l, Some(300)), Some(200));
    l.set = Some(200);
    assert_eq!(brightness_cap(&mut l, Some(200)), Some(100));
    l.set = Some(100);
    assert_eq!(brightness_restore(&mut l, Some(100)), Some(300));
    assert_eq!(l.saved, None);
    assert_eq!(brightness_restore(&mut l, Some(100)), None);
}

#[test]
fn the_user_takes_over() {
    let mut l = light(400);
    assert_eq!(brightness_save_and_cap(&mut l, Some(300)), Some(200));
    l.set = Some(200);
    // Two of four hundred is noise; three is a hand.
    assert_eq!(brightness_cap(&mut l, Some(202)), Some(100));
    assert_eq!(brightness_restore(&mut l, Some(203)), None);
    assert_eq!(l.set, Some(203));
    assert_eq!(brightness_save_and_cap(&mut light(400), Some(150)), None);
    assert_eq!(brightness_save_and_cap(&mut light(400), None), None);
    assert_eq!(clamp_level(0, 400), 1);
    assert_eq!(clamp_level(900, 400), 400);
    assert_eq!(clamp_level(7, 400), 7);
}

#[test]
fn events_have_labels() {
    assert_eq!(Event::Lid(true).label(), "LidClose");
    assert_eq!(Event::Lid(false).label(), "LidOpen");
    assert_eq!(Event::Resumed.label(), "Resumed");
}
