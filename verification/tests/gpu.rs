use hyprstate::gpu::{
    gpu_desired, integrated_card, pci_key, resolve_gpu_mode, GpuCard, GpuMode, GpuModeSource,
    GpuSnapshot,
};


fn card(
    path: &str,
    card_n: &str,
    boot_vga: u32,
    vram: u64,
    external: u32,
    edp: u32,
) -> GpuCard {
    GpuCard {
        path: path.to_string(),
        card: card_n.to_string(),
        boot_vga,
        vram,
        external,
        edp,
    }
}

/// Framework-16-shaped snapshot: iGPU has boot_vga + small VRAM.
fn fw16(igpu_edp: u32, dgpu_external: u32) -> Vec<GpuCard> {
    vec![
        card(
            "/dev/dri/by-path/pci-0000:03:00.0-card",
            "card1",
            0,
            8 << 30,
            dgpu_external,
            0,
        ),
        card(
            "/dev/dri/by-path/pci-0000:c4:00.0-card",
            "card2",
            1,
            512 << 20,
            0,
            igpu_edp,
        ),
    ]
}

fn snap(cards: Vec<GpuCard>, non_pci: bool, lid_closed: bool) -> GpuSnapshot {
    GpuSnapshot {
        cards,
        non_pci_display: non_pci,
        lid_closed,
    }
}

#[test]
fn test_integrated_by_agreement() {
    assert_eq!(integrated_card(&fw16(1, 0)), Some(1));
}

#[test]
fn test_integrated_disagreement_is_none() {
    // boot_vga on the big-VRAM card (muxed laptop): signals disagree.
    let cards = vec![
        card("a", "card0", 1, 8 << 30, 0, 0),
        card("b", "card1", 0, 512 << 20, 0, 0),
    ];
    assert_eq!(integrated_card(&cards), None);
}

#[test]
fn test_integrated_vram_only_when_no_boot_vga() {
    let cards = vec![
        card("a", "card0", 0, 8 << 30, 0, 0),
        card("b", "card1", 0, 1 << 20, 0, 0),
    ];
    assert_eq!(integrated_card(&cards), Some(1));
}

#[test]
fn test_integrated_vram_tie_without_boot_vga_is_none() {
    // Both vram=0 (Intel-style missing mem_info_vram_total).
    let cards = vec![
        card("a", "card0", 0, 0, 0, 0),
        card("b", "card1", 0, 0, 0, 0),
    ];
    assert_eq!(integrated_card(&cards), None);
}

#[test]
fn test_gpu_unmanaged_cases() {
    let (d, r) = gpu_desired(
        &snap(fw16(1, 0), false, false),
        GpuMode::Off,
        GpuModeSource::Override,
    );
    assert_eq!((d, r.as_str()), (None, "override-off"));

    let one_card = fw16(1, 0)[..1].to_vec();
    let (d, r) = gpu_desired(
        &snap(one_card, false, false),
        GpuMode::Auto,
        GpuModeSource::Default,
    );
    assert_eq!((d, r.as_str()), (None, "no-multi-gpu"));

    let (d, r) = gpu_desired(
        &snap(fw16(1, 0), true, false),
        GpuMode::Auto,
        GpuModeSource::Default,
    );
    assert_eq!((d, r.as_str()), (None, "non-pci-display-present"));

    let ambiguous = vec![
        card("a", "card0", 1, 8 << 30, 0, 0),
        card("b", "card1", 0, 1 << 20, 0, 0),
    ];
    let (d, r) = gpu_desired(
        &snap(ambiguous, false, false),
        GpuMode::Auto,
        GpuModeSource::Default,
    );
    assert_eq!((d, r.as_str()), (None, "ambiguous-integrated"));
}

#[test]
fn test_gpu_auto_dgpu_with_display_is_primary() {
    let (devices, reason) = gpu_desired(
        &snap(fw16(1, 1), false, false),
        GpuMode::Auto,
        GpuModeSource::Default,
    );
    assert_eq!(devices.unwrap(), vec!["/dev/dri/card1", "/dev/dri/card2"]);
    assert_eq!(reason, "dgpu-has-display");
}

#[test]
fn test_gpu_auto_idle_dgpu_is_omitted() {
    let (devices, reason) = gpu_desired(
        &snap(fw16(1, 0), false, false),
        GpuMode::Auto,
        GpuModeSource::Default,
    );
    // iGPU only; dGPU omitted -> runtime PM suspends it.
    assert_eq!(devices.unwrap(), vec!["/dev/dri/card2"]);
    assert_eq!(reason, "dgpu-idle-omitted");
}

#[test]
fn test_gpu_igpu_mode_lists_dgpu_only_with_display() {
    let (devices, reason) = gpu_desired(
        &snap(fw16(1, 1), false, false),
        GpuMode::Igpu,
        GpuModeSource::Override,
    );
    assert_eq!(devices.unwrap(), vec!["/dev/dri/card2", "/dev/dri/card1"]);
    assert_eq!(reason, "override-igpu");

    let (devices, _) = gpu_desired(
        &snap(fw16(1, 0), false, false),
        GpuMode::Igpu,
        GpuModeSource::Override,
    );
    assert_eq!(devices.unwrap(), vec!["/dev/dri/card2"]);
}

#[test]
fn test_gpu_dgpu_mode_always_lists_dgpu() {
    let (devices, reason) = gpu_desired(
        &snap(fw16(1, 0), false, false),
        GpuMode::Dgpu,
        GpuModeSource::Profile,
    );
    assert_eq!(devices.unwrap(), vec!["/dev/dri/card1", "/dev/dri/card2"]);
    assert_eq!(reason, "profile-dgpu");
}

#[test]
fn test_gpu_lid_closed_no_externals_bails_transient() {
    let (devices, reason) = gpu_desired(
        &snap(fw16(1, 0), false, true),
        GpuMode::Auto,
        GpuModeSource::Default,
    );
    assert_eq!(devices, None);
    assert_eq!(reason, "bailed-transient");
}

/// Lid open but eDP not connected and no externals anywhere: any list we
/// could emit lights nothing up -> must bail, never print.
#[test]
fn test_gpu_usable_output_invariant() {
    let (devices, reason) = gpu_desired(
        &snap(fw16(0, 0), false, false),
        GpuMode::Auto,
        GpuModeSource::Default,
    );
    assert_eq!(devices, None);
    assert_eq!(reason, "bailed-transient");
}

#[test]
fn test_resolve_gpu_mode_precedence() {
    // Override wins over everything.
    let (m, s, w) = resolve_gpu_mode(Some("dgpu"), Some("igpu"), Some("low-power"));
    assert_eq!((m, s), (GpuMode::Dgpu, GpuModeSource::Override));
    assert!(w.is_empty());
    // Override "auto" falls through silently; unknown warns + falls through.
    let (m, s, w) = resolve_gpu_mode(Some("auto"), Some("igpu"), None);
    assert_eq!((m, s), (GpuMode::Igpu, GpuModeSource::Profile));
    assert!(w.is_empty());
    let (m, s, w) = resolve_gpu_mode(Some("sideways"), None, Some("performance"));
    assert_eq!((m, s), (GpuMode::Dgpu, GpuModeSource::Platform));
    assert_eq!(w.len(), 1);
    // Overlay "auto"/missing falls through to platform_profile.
    let (m, s, _) = resolve_gpu_mode(None, Some("auto"), Some("quiet"));
    assert_eq!((m, s), (GpuMode::Igpu, GpuModeSource::Platform));
    // balanced and friends are deliberately auto.
    for word in ["balanced", "balanced-performance", "cool", "custom", "???"] {
        let (m, s, _) = resolve_gpu_mode(None, None, Some(word));
        assert_eq!((m, s), (GpuMode::Auto, GpuModeSource::Default));
    }
    let (m, s, _) = resolve_gpu_mode(None, None, None);
    assert_eq!((m, s), (GpuMode::Auto, GpuModeSource::Default));
}

#[test]
fn keys_are_pci_addresses() {
    assert_eq!(pci_key("/dev/dri/by-path/pci-0000:03:00.0-card"), "pci-0000:03:00.0");
    assert_eq!(pci_key("plain"), "plain");
}

#[test]
fn unknown_overrides_are_quoted_in_the_warning() {
    let (_, _, w) = resolve_gpu_mode(Some("side\"ways"), None, None);
    assert!(w[0].contains("\"side\\\"ways\""));
}
