use hyprstate::gpu::{GpuCard, GpuSnapshot};
use hyprstate::knobs::{
    apply_dgpu_runtime_pm, aspm, aspm_current, aspm_row, aspm_writability_probe, boost, boost_row,
    card_report, cpu_rows, cpufreq_policies, device_path, dgpu_dpm, epp, governor, gpu_rows,
    knob_check, knob_files, knob_snapshot, knob_write, merge_row, no_turbo, persist_pin,
    persist_profile, persisted_pin, persisted_profile, platform_row, powerd_apply, CardReading,
    CardReport, Knob, KnobReadings, Policy, ReadOutcome, Row, WriteOutcome, ASPM_POLICY_PATH,
    CPUFREQ_DIR, INTEL_NO_TURBO_PATH, PLATFORM_PROFILE_PATH,
};
use hyprstate::power::PowerProfile::{self, Balanced, Performance, PowerSaver};

fn strings(v: &[&str]) -> Vec<String> {
    v.iter().map(|s| s.to_string()).collect()
}

fn content(s: &str) -> ReadOutcome {
    ReadOutcome::Content(s.to_string())
}

/// A row as text: its label, and what each setting comes to.
fn show(r: &Row) -> String {
    let knobs: Vec<String> = r
        .knobs
        .iter()
        .map(|k| match k {
            Knob::Settled(s) => s.clone(),
            Knob::Write { path, value } => format!("{path}={value}"),
        })
        .collect();
    format!("{} {}", r.label, knobs.join(" "))
}

fn rows(v: &[Row]) -> Vec<String> {
    v.iter().map(show).collect()
}

fn policy(name: &str, driver: &str, governors: &str) -> Policy {
    Policy {
        name: name.to_string(),
        governors: Some(governors.to_string()),
        driver: Some(driver.to_string()),
        has_epp: false,
    }
}

fn card(path: &str, name: &str, boot_vga: u32, vram: u64) -> GpuCard {
    GpuCard {
        path: path.to_string(),
        card: name.to_string(),
        boot_vga,
        vram,
        external: 0,
        edp: 0,
    }
}

fn two_cards() -> GpuSnapshot {
    GpuSnapshot {
        cards: vec![
            card("/dev/dri/by-path/pci-0000:03:00.0-card", "card1", 0, 8_000),
            card("/dev/dri/by-path/pci-0000:c4:00.0-card", "card2", 1, 500),
        ],
        non_pci_display: false,
        lid_closed: false,
    }
}

#[test]
fn the_matrix() {
    let all = [PowerSaver, Balanced, Performance];
    assert_eq!(all.map(governor), ["powersave", "powersave", "performance"]);
    assert_eq!(all.map(epp), [Some("power"), Some("balance_performance"), None]);
    assert_eq!(all.map(boost), ["0", "1", "1"]);
    assert_eq!(all.map(no_turbo), ["1", "0", "0"]);
    assert_eq!(all.map(dgpu_dpm), ["low", "auto", "auto"]);
    assert_eq!(all.map(aspm), ["powersupersave", "default", "default"]);
}

#[test]
fn settings_are_read_before_they_are_written() {
    assert_eq!(knob_check(&content("low\n"), "low"), Some("unchanged".to_string()));
    assert_eq!(knob_check(&content("auto\n"), "low"), None);
    assert_eq!(knob_check(&ReadOutcome::Missing, "low"), Some("skipped-missing".to_string()));
    assert_eq!(
        knob_check(&ReadOutcome::Failed("Is a directory (os error 21)".to_string()), "low"),
        Some("error:Is a directory (os error 21)".to_string())
    );
}

#[test]
fn locked_settings_are_no_errors() {
    let failed = |errno: Option<i32>| WriteOutcome::Failed { errno, message: "no".to_string() };
    assert_eq!(knob_write(&WriteOutcome::Written), "written");
    for errno in [1, 13, 16] {
        assert_eq!(knob_write(&failed(Some(errno))), "skipped-unsupported");
    }
    assert_eq!(knob_write(&failed(Some(22))), "error:no");
    assert_eq!(knob_write(&failed(None)), "error:no");
}

#[test]
fn rows_collapse_to_one_status() {
    assert_eq!(merge_row(&vec![]), "skipped-missing");
    assert_eq!(merge_row(&strings(&["written", "error:a", "error:b"])), "error:a");
    assert_eq!(merge_row(&strings(&["unchanged", "written"])), "written");
    assert_eq!(merge_row(&strings(&["unchanged", "unchanged"])), "unchanged");
    assert_eq!(
        merge_row(&strings(&["skipped-unsupported", "unchanged"])),
        "skipped-unsupported"
    );
    assert_eq!(merge_row(&strings(&["unchanged", "skipped-missing"])), "unchanged");
}

#[test]
fn a_single_setting_keeps_its_status() {
    for s in ["written", "unchanged", "skipped-missing", "error:x"] {
        assert_eq!(merge_row(&strings(&[s])), s);
    }
}

#[test]
fn the_platform_takes_the_first_word_that_it_knows() {
    let row = platform_row(PowerSaver, true, Some("quiet balanced performance\n"));
    assert_eq!(show(&row), format!("platform_profile {PLATFORM_PROFILE_PATH}=quiet"));
    let row = platform_row(PowerSaver, true, Some("low-power quiet balanced\n"));
    assert_eq!(show(&row), format!("platform_profile {PLATFORM_PROFILE_PATH}=low-power"));
    assert_eq!(
        show(&platform_row(Performance, false, None)),
        "platform_profile skipped-missing"
    );
    assert_eq!(
        show(&platform_row(Performance, true, Some("quiet\n"))),
        "platform_profile skipped-unsupported"
    );
}

#[test]
fn policies_are_numbered_directories_in_order() {
    let dirs = vec![
        policy("policy10", "", ""),
        policy("boost", "", ""),
        policy("policy", "", ""),
        policy("policy2x", "", ""),
        policy("policy0", "", ""),
    ];
    let names: Vec<_> = cpufreq_policies(&dirs).iter().map(|p| p.name.clone()).collect();
    assert_eq!(names, vec!["policy0", "policy10"]);
}

#[test]
fn governors_are_written_before_preferences() {
    let mut out = vec![];
    let dirs = vec![
        policy("policy1", "amd-pstate-epp", "performance"),
        policy("policy0", "amd-pstate-epp\n", "performance powersave\n"),
    ];
    cpu_rows(Balanced, &dirs, &mut out);
    assert_eq!(
        rows(&out),
        vec![
            format!("scaling_governor {CPUFREQ_DIR}/policy0/scaling_governor=powersave skipped-unsupported"),
            format!("energy_performance_preference {CPUFREQ_DIR}/policy0/energy_performance_preference=balance_performance {CPUFREQ_DIR}/policy1/energy_performance_preference=balance_performance"),
        ]
    );
    let mut out = vec![];
    cpu_rows(Performance, &dirs, &mut out);
    assert_eq!(out.len(), 1);
}

#[test]
fn other_drivers_read_the_governors_otherwise() {
    let mut out = vec![];
    cpu_rows(Balanced, &vec![policy("policy0", "acpi-cpufreq", "powersave")], &mut out);
    assert_eq!(
        rows(&out),
        vec![
            "scaling_governor skipped-unsupported",
            "energy_performance_preference skipped-unsupported",
        ]
    );
    let mut able = policy("policy0", "acpi-cpufreq", "powersave");
    able.has_epp = true;
    let mut out = vec![];
    cpu_rows(Performance, &vec![able], &mut out);
    assert_eq!(rows(&out), vec!["scaling_governor skipped-unsupported"]);
    let mut out = vec![];
    cpu_rows(Balanced, &vec![], &mut out);
    assert_eq!(rows(&out), vec!["cpu skipped-missing"]);
}

#[test]
fn turbo_is_boost_turned_round() {
    assert_eq!(show(&boost_row(PowerSaver, true, true)), format!("boost {CPUFREQ_DIR}/boost=0"));
    assert_eq!(
        show(&boost_row(PowerSaver, false, true)),
        format!("no_turbo {INTEL_NO_TURBO_PATH}=1")
    );
    assert_eq!(
        show(&boost_row(Balanced, false, true)),
        format!("no_turbo {INTEL_NO_TURBO_PATH}=0")
    );
    assert_eq!(show(&boost_row(Balanced, false, false)), "boost skipped-missing");
}

#[test]
fn sleeping_cards_are_not_woken() {
    let snap = two_cards();
    let mut out = vec![];
    gpu_rows(PowerSaver, &snap, &vec![Some("suspended\n".to_string()), None], &mut out);
    assert_eq!(
        rows(&out),
        vec![
            "dpm:pci-0000:03:00.0 skipped-suspended".to_string(),
            format!(
                "dpm:pci-0000:c4:00.0 {}=auto",
                device_path("card2", "power_dpm_force_performance_level")
            ),
        ]
    );
    let mut out = vec![];
    gpu_rows(PowerSaver, &snap, &vec![Some("active\n".to_string()), None], &mut out);
    assert_eq!(
        show(&out[0]),
        "dpm:pci-0000:03:00.0 /sys/class/drm/card1/device/power_dpm_force_performance_level=low"
    );
    let mut out = vec![];
    gpu_rows(PowerSaver, &snap, &vec![None, None], &mut out);
    assert_eq!(show(&out[0]), "dpm:pci-0000:03:00.0 skipped-missing");
}

#[test]
fn a_single_card_is_not_classified() {
    let mut snap = two_cards();
    snap.cards.truncate(1);
    let mut out = vec![];
    gpu_rows(PowerSaver, &snap, &vec![None], &mut out);
    assert_eq!(rows(&out), vec!["gpu skipped-ambiguous"]);
    let mut out = vec![];
    gpu_rows(PowerSaver, &GpuSnapshot::default(), &vec![], &mut out);
    assert_eq!(rows(&out), vec!["gpu skipped-missing"]);
}

#[test]
fn link_power_takes_only_listed_policies() {
    let opts = "[default] performance powersave powersupersave \n";
    assert_eq!(aspm_current(opts), Some("default".to_string()));
    assert_eq!(aspm_current("default performance"), None);
    assert_eq!(
        show(&aspm_row(PowerSaver, &content(opts), true)),
        format!("pcie_aspm {ASPM_POLICY_PATH}=powersupersave")
    );
    assert_eq!(show(&aspm_row(Balanced, &content(opts), true)), "pcie_aspm unchanged");
    assert_eq!(
        show(&aspm_row(PowerSaver, &content("[default] performance"), true)),
        "pcie_aspm skipped-unsupported"
    );
    assert_eq!(
        show(&aspm_row(PowerSaver, &content(opts), false)),
        "pcie_aspm skipped-unsupported"
    );
    assert_eq!(
        show(&aspm_row(PowerSaver, &ReadOutcome::Missing, true)),
        "pcie_aspm skipped-missing"
    );
    assert_eq!(
        show(&aspm_row(PowerSaver, &ReadOutcome::Failed("x".to_string()), true)),
        "pcie_aspm error:x"
    );
    assert_eq!(aspm_writability_probe(Some(opts)), Some("default".to_string()));
    assert_eq!(aspm_writability_probe(Some("default")), None);
    assert_eq!(aspm_writability_probe(None), None);
}

#[test]
fn a_profile_is_applied_row_by_row() {
    let readings = KnobReadings {
        platform: true,
        choices: Some("low-power balanced performance".to_string()),
        policies: vec![policy("policy0", "intel_pstate", "powersave performance")],
        has_boost: false,
        has_no_turbo: true,
        gpus: two_cards(),
        runtime: vec![Some("suspended".to_string()), Some("active".to_string())],
        aspm: content("[default] powersupersave"),
    };
    let labels: Vec<String> = powerd_apply(PowerSaver, true, &readings)
        .iter()
        .map(|r| r.label.clone())
        .collect();
    assert_eq!(
        labels,
        vec![
            "platform_profile",
            "scaling_governor",
            "energy_performance_preference",
            "no_turbo",
            "dpm:pci-0000:03:00.0",
            "dpm:pci-0000:c4:00.0",
            "pcie_aspm",
        ]
    );
}

#[test]
fn the_pin_keeps_discrete_cards_awake() {
    let on = apply_dgpu_runtime_pm(&two_cards(), true);
    assert_eq!(on.len(), 1);
    assert!(show(&on[0]).ends_with("card1/device/power/control=on"), "{}", show(&on[0]));
    let auto = apply_dgpu_runtime_pm(&two_cards(), false);
    assert!(show(&auto[0]).ends_with("card1/device/power/control=auto"));
    let mut one = two_cards();
    one.cards.truncate(1);
    assert_eq!(rows(&apply_dgpu_runtime_pm(&one, true)), vec!["gpu skipped-ambiguous"]);
    one.cards.clear();
    assert_eq!(rows(&apply_dgpu_runtime_pm(&one, true)), vec!["gpu skipped-missing"]);
}

#[test]
fn a_kept_profile_is_found_again() {
    for p in PowerProfile::ALL {
        assert_eq!(persisted_profile(Some(&persist_profile(p))), (p, None));
    }
    assert_eq!(persist_profile(PowerSaver), "power-saver\n");
    for nothing in [None, Some(""), Some(" \n")] {
        let (p, warning) = persisted_profile(nothing);
        assert_eq!(p, Balanced);
        assert_eq!(warning.unwrap(), "no persisted profile \u{2014} using balanced");
    }
    let (p, warning) = persisted_profile(Some("turbo\n"));
    assert_eq!(p, Balanced);
    assert_eq!(
        warning.unwrap(),
        "persisted profile \"turbo\" invalid \u{2014} using balanced"
    );
}

#[test]
fn a_kept_pin_is_found_again() {
    assert_eq!(persist_pin(true), "on\n");
    assert_eq!(persist_pin(false), "auto\n");
    assert!(persisted_pin(Some(&persist_pin(true))));
    assert!(!persisted_pin(Some(&persist_pin(false))));
    assert!(!persisted_pin(None));
    assert!(!persisted_pin(Some("yes")));
}

#[test]
fn reports_ask_the_runtime_status_first() {
    assert_eq!(card_report(Some("suspended\n")), CardReport::Suspended);
    assert_eq!(card_report(Some("active\n")), CardReport::ReadKnob);
    assert_eq!(card_report(None), CardReport::Nothing);
    assert!(knob_files().contains(&("platform_profile", PLATFORM_PROFILE_PATH)));
}

#[test]
fn live_values_are_reported() {
    let files = vec![
        ("boost".to_string(), Some("1\n".to_string())),
        ("no_turbo".to_string(), None),
    ];
    let card = |path: &str, status: Option<&str>, level: Option<&str>| CardReading {
        path: path.to_string(),
        status: status.map(str::to_string),
        level: level.map(str::to_string),
        control: level.map(|_| "on\n".to_string()),
    };
    let cards = vec![
        card("/dev/dri/by-path/pci-0000:03:00.0-card", Some("suspended\n"), None),
        card("/dev/dri/by-path/pci-0000:c4:00.0-card", Some("active\n"), Some("auto\n")),
        card("/dev/dri/by-path/pci-0000:05:00.0-card", Some("active\n"), None),
        card("/dev/dri/by-path/pci-0000:06:00.0-card", None, Some("auto\n")),
    ];
    let shown: Vec<String> =
        knob_snapshot(&files, &cards).iter().map(|(k, v)| format!("{k}={v}")).collect();
    assert_eq!(
        shown,
        vec![
            "boost=1",
            "dpm:pci-0000:03:00.0=(runtime-suspended)",
            "dpm:pci-0000:c4:00.0=auto",
            "runtime_pm:pci-0000:c4:00.0=on",
            "runtime_pm:pci-0000:06:00.0=on",
        ]
    );
}
