use hyprstate::event::Event;
use hyprstate::hypridle_log::ParseHealth;
use hyprstate::sources::{
    battery_counts, best_session, inhibit_baseline_who, logind_real_inhibitor_active,
    on_ac_sysfs, powerd_appeared, reconcile_snapshot, socket2_path, socket_event, InhibitorPoller,
    InhibitorRow, Instance, ModePoller, Readings, Session, SocketChoice, Supply,
};

fn instance(lock: &str, comm: &str, socket: bool) -> Instance {
    Instance { lock: Some(lock.to_string()), comm: Some(comm.to_string()), socket }
}

fn row(who: &str, what: &str, mode: &str) -> InhibitorRow {
    InhibitorRow { who: who.to_string(), what: what.to_string(), mode: mode.to_string() }
}

fn labels(events: &[Event]) -> Vec<String> {
    events.iter().map(|e| format!("{e:?}")).collect()
}

#[test]
fn the_named_instance_comes_first() {
    let found = vec![
        instance("12\nx", "bash\n", true),
        instance("no", "Hyprland\n", true),
        instance("77\n", "Hyprland\n", false),
        instance(" 78 \n", "Hyprland\n", true),
    ];
    assert!(matches!(socket2_path(true, &found), SocketChoice::Named));
    assert!(matches!(socket2_path(false, &found), SocketChoice::Scanned(3)));
    assert!(matches!(socket2_path(false, &vec![]), SocketChoice::Nowhere));
}

#[test]
fn lines_of_the_event_socket() {
    match socket_event("monitoraddedv2>>1,DP-3,Dell U2723QE") {
        Some(Event::MonitorHotplug { added: true, name }) => assert_eq!(name, "DP-3"),
        other => panic!("{other:?}"),
    }
    match socket_event("monitoraddedv2>>1") {
        Some(Event::MonitorHotplug { added: true, name }) => assert_eq!(name, ""),
        other => panic!("{other:?}"),
    }
    match socket_event("monitorremoved>>DP-3") {
        Some(Event::MonitorHotplug { added: false, name }) => assert_eq!(name, "DP-3"),
        other => panic!("{other:?}"),
    }
    assert!(matches!(socket_event("configreloaded>>"), Some(Event::ConfigReloaded)));
    assert!(socket_event("monitoradded>>DP-3").is_none());
    assert!(socket_event("workspace>>2").is_none());
    assert!(socket_event("").is_none());
}

#[test]
fn only_blocking_strangers_keep_the_machine_awake() {
    assert!(inhibit_baseline_who("NetworkManager"));
    assert!(inhibit_baseline_who("hyprstate"));
    assert!(!inhibit_baseline_who("steam"));
    assert!(row("steam", "idle", "block").keeps_awake());
    assert!(row("dnf", "shutdown:sleep", "block").keeps_awake());
    assert!(!row("steam", "idle", "delay").keeps_awake());
    assert!(!row("hyprstate", "handle-lid-switch", "block").keeps_awake());
    assert!(!row("steam", "handle-lid-switch", "block").keeps_awake());
    assert!(!row("UPower", "sleep", "block").keeps_awake());
    let none = vec![row("UPower", "sleep", "delay")];
    let some = vec![row("UPower", "sleep", "delay"), row("steam", "idle", "block")];
    assert_eq!(logind_real_inhibitor_active(Some(&none)), Some(false));
    assert_eq!(logind_real_inhibitor_active(Some(&some)), Some(true));
    assert_eq!(logind_real_inhibitor_active(None), None);
}

#[test]
fn inhibitors_are_told_once() {
    let mut p = InhibitorPoller::new();
    let busy = "[LOG] Inhibit locks: 1\n";
    let idle = "[LOG] Inhibit locks: 0\n";
    assert!(p.poll(Some(false), Some(idle)).is_empty());
    assert_eq!(p.health, ParseHealth::Healthy);
    assert_eq!(
        labels(&p.poll(Some(true), Some(busy))),
        vec![
            "Inhibitor { wayland: false, active: true }",
            "Inhibitor { wayland: true, active: true }",
        ]
    );
    assert!(p.poll(Some(true), Some(busy)).is_empty());
    // A failed call is no edge.
    assert!(p.poll(None, Some(busy)).is_empty());
    assert_eq!(
        labels(&p.poll(None, Some(idle))),
        vec!["Inhibitor { wayland: true, active: false }"]
    );
}

fn modes(platform: &str, gpu: Option<&str>, request: Option<&str>, sources: u64) -> ModePoller {
    ModePoller {
        platform: Some(platform.to_string()),
        gpu: gpu.map(str::to_string),
        power: None,
        request: request.map(str::to_string),
        sources,
    }
}

#[test]
fn changed_files_are_told_once() {
    let mut p = modes("balanced", None, None, 1);
    assert!(p.poll(modes("balanced", None, None, 1)).is_empty());
    assert_eq!(
        labels(&p.poll(modes("performance", Some("igpu"), None, 1))),
        vec![
            "PlatformProfileChanged(Some(\"performance\"))",
            "GpuOverrideChanged(Some(\"igpu\"))",
        ]
    );
    assert!(p.poll(modes("performance", Some("igpu"), None, 1)).is_empty());
    let told = labels(&p.poll(modes("performance", None, Some("idle"), 2)));
    assert_eq!(told.len(), 3);
    assert!(told.contains(&"GpuOverrideChanged(None)".to_string()));
    assert!(told.contains(&"SuspendRequestChanged(Some(\"idle\"))".to_string()));
    assert!(told.contains(&"ProfilesChanged".to_string()));
}

#[test]
fn the_charger_is_the_first_readable_supply() {
    let supply = |name: &str, online: Option<&str>| Supply {
        name: name.to_string(),
        online: online.map(str::to_string),
    };
    assert_eq!(on_ac_sysfs(&vec![supply("BAT1", Some("1")), supply("ACAD", Some("0\n"))]), Some(false));
    assert_eq!(on_ac_sysfs(&vec![supply("ADP0", None), supply("AC1", Some(" 1\n"))]), Some(true));
    assert_eq!(on_ac_sysfs(&vec![supply("BAT1", Some("1"))]), None);
    assert_eq!(on_ac_sysfs(&vec![]), None);
}

#[test]
fn the_graphical_session_wins() {
    let session = |state: &str, class: &str, kind: &str| Session {
        state: state.to_string(),
        class: class.to_string(),
        kind: kind.to_string(),
    };
    assert_eq!(session("active", "user", "wayland").score(), 7);
    assert_eq!(session("online", "user", "x11").score(), 4);
    assert_eq!(session("closing", "greeter", "tty").score(), 0);
    let all = vec![
        session("active", "user", "tty"),
        session("active", "user", "wayland"),
        session("active", "user", "mir"),
    ];
    assert_eq!(best_session(&all), Some(1));
    assert_eq!(best_session(&vec![session("closing", "greeter", "tty")]), Some(0));
    assert_eq!(best_session(&vec![]), None);
}

#[test]
fn absent_batteries_do_not_count() {
    assert!(battery_counts(true, 2));
    assert!(battery_counts(true, 3));
    assert!(!battery_counts(true, 1));
    assert!(!battery_counts(false, 2));
}

#[test]
fn only_the_power_service_counts() {
    assert!(powerd_appeared("org.hyprstate.Power1", true));
    assert!(!powerd_appeared("org.hyprstate.Power1", false));
    assert!(!powerd_appeared("org.freedesktop.UPower", true));
}

#[test]
fn an_unreadable_lid_spoils_the_snapshot() {
    let readings = |lid_closed: Option<bool>, logind: Option<bool>| Readings {
        lid_closed,
        ext_mon_count: 2,
        logind,
        wayland: true,
        locked: None,
        on_ac: Some(true),
        edp_disabled: Some(false),
        dpms_off: Some(true),
        cursor_pos: Some((4, 5)),
    };
    assert!(reconcile_snapshot(readings(None, Some(true))).is_none());
    let s = reconcile_snapshot(readings(Some(true), None)).unwrap();
    assert!(s.lid_closed);
    assert_eq!(s.ext_mon_count, 2);
    assert!(!s.logind_inhibitor);
    assert!(s.wayland_inhibitor);
    assert_eq!(s.locked, None);
    assert_eq!(s.on_ac, Some(true));
    assert_eq!(s.edp_disabled, Some(false));
    assert_eq!(s.dpms_off, Some(true));
    assert_eq!(s.cursor_pos, Some((4, 5)));
}
