use hyprstate::gpu::{GpuCard, GpuSnapshot};
use hyprstate::gpu_state::gpu_state;
use hyprstate::hypr_instance::{hyprland_aq_devices, hyprland_pid, listed_devices, lock_pid};
use hyprstate::paths;
use hyprstate::profile_store::ProfileFormat;
use hyprstate::sysfs::{
    card_connectors, connected_outputs, gpu_snapshot, lid_closed_sysfs, read_first_word, read_int,
    read_level, Connector, DriEntry,
};

fn connector(name: &str, status: &str) -> Connector {
    Connector { name: name.to_string(), status: Some(status.to_string()) }
}

#[test]
fn files_stand_where_they_belong() {
    let home = "/home/u";
    assert_eq!(paths::gpu_override_file(home), "/home/u/.config/hypr/gpu-select");
    assert_eq!(paths::gpu_breadcrumb_file(home), "/home/u/.config/hypr/gpu-profile");
    assert_eq!(paths::power_conf_file(home), "/home/u/.config/hypr/power.conf");
    assert_eq!(paths::power_override_file(home), "/home/u/.config/hypr/power-override");
    assert_eq!(paths::profiles_dir(home), "/home/u/.config/hypr/profiles");
    assert_eq!(
        paths::active_profile_link(home, ProfileFormat::Conf),
        "/home/u/.config/hypr/profiles/.active.conf"
    );
    assert_eq!(
        paths::active_profile_link(home, ProfileFormat::Lua),
        "/home/u/.config/hypr/profiles/.active.lua"
    );
    assert_eq!(paths::hyprland_lua_config(home), "/home/u/.config/hypr/hyprland.lua");
    assert_eq!(paths::gpu_state_path(Some("/run/user/1")), "/run/user/1/hypr-gpu-primary.json");
    assert_eq!(paths::gpu_state_path(None), "/tmp/hypr-gpu-primary.json");
    assert_eq!(
        paths::suspend_request_file(Some("/run/user/1")),
        "/run/user/1/hyprstate-suspend-request"
    );
    assert_eq!(paths::platform_profile_path(), "/sys/firmware/acpi/platform_profile");
    assert_eq!(paths::join("/", "a"), "/a");
    assert_eq!(paths::join("/x", "a"), "/x/a");
}

#[test]
fn words_and_numbers_of_files() {
    assert_eq!(read_first_word(Some("  igpu # pinned\n")), Some("igpu".to_string()));
    assert_eq!(read_first_word(Some(" \n")), None);
    assert_eq!(read_first_word(None), None);
    assert_eq!(read_int(Some("17163091968\n"), 0), 17_163_091_968);
    assert_eq!(read_int(Some("x"), 7), 7);
    assert_eq!(read_int(None, 7), 7);
    assert_eq!(read_level(Some("120\n")), Some(120));
    assert_eq!(read_level(Some("4294967296")), None);
    assert_eq!(read_level(None), None);
}

#[test]
fn connectors_are_counted_by_card() {
    let found = vec![
        connector("card1-DP-1", "connected\n"),
        connector("card1-DP-2", "disconnected\n"),
        connector("card1-eDP-2", "connected\n"),
        connector("card1-Writeback-1", "connected\n"),
        connector("card10-DP-1", "connected\n"),
        connector("card1", "connected\n"),
    ];
    assert_eq!(card_connectors("card1", &found), (1, 1));
    assert_eq!(card_connectors("card10", &found), (1, 0));
    let outputs: Vec<(String, String)> = connected_outputs(&found);
    let shown: Vec<String> = outputs.iter().map(|(o, c)| format!("{o} on {c}")).collect();
    assert_eq!(shown, vec!["DP-1 on card1", "eDP-2 on card1", "DP-1 on card10"]);
}

#[test]
fn the_first_readable_lid_counts() {
    let state = |s: &str| Some(s.to_string());
    assert!(lid_closed_sysfs(&vec![None, state("state:      closed\n")]));
    assert!(!lid_closed_sysfs(&vec![state("state:      open\n"), state("state: closed\n")]));
    assert!(!lid_closed_sysfs(&vec![]));
}

#[test]
fn the_topology_of_the_machine() {
    let entry = |path: &str, card: &str, class: &str, vram: &str| DriEntry {
        path: path.to_string(),
        card: card.to_string(),
        class: Some(class.to_string()),
        boot_vga: Some(if card == "card2" { "1\n" } else { "0\n" }.to_string()),
        vram: Some(vram.to_string()),
    };
    let entries = vec![
        entry("/dev/dri/by-path/pci-0000:c4:00.0-card", "card2", "0x030000\n", "512\n"),
        entry("/dev/dri/by-path/pci-0000:03:00.0-card", "card1", "0x038000\n", "8000\n"),
        entry("/dev/dri/by-path/pci-0000:03:00.0-render", "renderD128", "0x038000\n", "8000\n"),
    ];
    let found = vec![connector("card2-eDP-2", "connected"), connector("card1-DP-1", "connected")];
    let snap = gpu_snapshot(&entries, &found, &vec![Some("state: open".to_string())]);
    let cards: Vec<_> = snap.cards.iter().map(|c| c.card.clone()).collect();
    assert_eq!(cards, vec!["card1", "card2"]);
    assert_eq!((snap.cards[0].vram, snap.cards[0].external, snap.cards[0].edp), (8000, 1, 0));
    assert_eq!((snap.cards[1].boot_vga, snap.cards[1].external, snap.cards[1].edp), (1, 0, 1));
    assert!(!snap.non_pci_display);
    assert!(!snap.lid_closed);
}

#[test]
fn the_compositor_is_found_by_its_lock() {
    assert_eq!(lock_pid("4711\nwayland-1\n"), Some(4711));
    assert_eq!(lock_pid("x\n4711"), None);
    assert_eq!(hyprland_pid(Some("12\n"), Some("Hyprland\n")), Some(12));
    assert_eq!(hyprland_pid(Some("12\n"), Some("bash\n")), None);
    assert_eq!(hyprland_pid(None, Some("Hyprland\n")), None);
}

#[test]
fn devices_come_from_the_environment() {
    let devices = hyprland_aq_devices(b"HOME=/x\0AQ_DRM_DEVICES=/dev/dri/card1:/dev/dri/card2\0");
    assert_eq!(devices, vec!["/dev/dri/card1", "/dev/dri/card2"]);
    assert!(hyprland_aq_devices(b"HOME=/x\0").is_empty());
    // Bytes that are no text are replaced, not dropped.
    assert_eq!(hyprland_aq_devices(b"AQ_DRM_DEVICES=/dev/\xff"), vec!["/dev/\u{fffd}"]);
    assert_eq!(listed_devices("a::b"), vec!["a", "b"]);
    assert!(listed_devices("").is_empty());
}

#[test]
fn the_record_of_a_selection() {
    let card = |path: &str, name: &str, boot_vga: u32| GpuCard {
        path: path.to_string(),
        card: name.to_string(),
        boot_vga,
        vram: 5,
        external: 1,
        edp: 0,
    };
    let snap = GpuSnapshot {
        cards: vec![
            card("/dev/dri/by-path/pci-0000:03:00.0-card", "card1", 0),
            card("/dev/dri/by-path/pci-0000:c4:00.0-card", "card2", 1),
        ],
        non_pci_display: false,
        lid_closed: false,
    };
    let list = vec!["/dev/dri/card2".to_string()];
    let state = gpu_state("igpu", "why", Some(&list), &snap);
    assert_eq!(state.version, 1);
    assert_eq!(state.mode, "igpu");
    assert_eq!(state.reason, "why");
    assert_eq!(state.primary, Some("/dev/dri/card2".to_string()));
    assert_eq!(state.devices, list);
    assert_eq!(state.omitted, vec!["/dev/dri/card1"]);
    let kinds: Vec<String> =
        state.snapshot.iter().map(|(k, c)| format!("{k} {}", c.kind)).collect();
    assert_eq!(kinds, vec!["pci-0000:03:00.0 discrete", "pci-0000:c4:00.0 integrated"]);
    let bailed = gpu_state("auto", "bailed", None, &snap);
    assert_eq!(bailed.primary, None);
    assert_eq!(bailed.omitted, vec!["/dev/dri/card1", "/dev/dri/card2"]);
}
