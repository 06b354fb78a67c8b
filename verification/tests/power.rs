use hyprstate::power::{
    ac_axis, battery_low_step, parse_power_conf, parse_power_policy, platform_profile_chain,
    power_base_state, profile_from_platform_value, AcAxis, BaseState, LidMode,
    ParsePowerProfileError, Percent, PowerPolicy, PowerProfile, SelfWriteTracker,
    DEFAULT_BATTERY_LOW_PCT,
};

const SECOND: u64 = 1_000_000_000;
const T0: u64 = 1_000 * SECOND;


#[test]
fn test_power_base_state_ac_side() {
    assert_eq!(power_base_state(true, 0, false), BaseState::Ac);
    assert_eq!(power_base_state(true, 2, false), BaseState::DockedAc);
}

#[test]
fn test_power_base_state_battery_side() {
    assert_eq!(power_base_state(false, 0, false), BaseState::Battery);
    assert_eq!(power_base_state(false, 0, true), BaseState::BatteryLow);
}

/// Regression (structural in v2): an unknown battery percentage (UPower
/// down) must not pin the axis to AC — the axis is on_ac_settled alone,
/// battery_percent is not even an input.
#[test]
fn test_power_base_state_upower_down_on_battery() {
    assert_eq!(power_base_state(false, 0, false), BaseState::Battery);
}

/// Desktops never observe an unplug: on_ac_settled stays true.
#[test]
fn test_power_base_state_desktop_stays_ac() {
    assert_eq!(power_base_state(true, 0, false), BaseState::Ac);
}

#[test]
fn test_ac_axis() {
    assert_eq!(ac_axis(BaseState::Ac), AcAxis::Ac);
    assert_eq!(ac_axis(BaseState::DockedAc), AcAxis::Ac);
    assert_eq!(ac_axis(BaseState::Battery), AcAxis::Battery);
    assert_eq!(ac_axis(BaseState::BatteryLow), AcAxis::Battery);
}

#[test]
fn test_profile_from_platform_value() {
    assert_eq!(
        profile_from_platform_value(Some("low-power")),
        PowerProfile::PowerSaver
    );
    assert_eq!(
        profile_from_platform_value(Some("quiet")),
        PowerProfile::PowerSaver
    );
    assert_eq!(
        profile_from_platform_value(Some("performance")),
        PowerProfile::Performance
    );
    assert_eq!(
        profile_from_platform_value(Some("balanced")),
        PowerProfile::Balanced
    );
    assert_eq!(
        profile_from_platform_value(Some("custom")),
        PowerProfile::Balanced
    );
    assert_eq!(profile_from_platform_value(None), PowerProfile::Balanced);
}

#[test]
fn test_battery_low_hysteresis() {
    // Enter at <= threshold.
    assert!(battery_low_step(false, Percent::exactly(15), 15));
    assert!(!battery_low_step(false, Percent::exactly(16), 15));
    // Exit only at >= threshold + 3.
    assert!(battery_low_step(true, Percent::exactly(17), 15));
    assert!(!battery_low_step(true, Percent::exactly(18), 15));
}

#[test]
fn test_power_self_write_matches_full_fallback_chain() {
    let t0 = T0;
    let mut tracker = SelfWriteTracker::default();
    tracker.register(t0, PowerProfile::PowerSaver);
    // quiet-only firmware: we asked for power-saver, kernel wrote "quiet".
    assert!(tracker.is_self_write(t0 + SECOND, Some("quiet")));
    assert!(tracker.entries.is_empty()); // entry consumed
}

#[test]
fn test_power_self_write_external_value_outside_window() {
    let t0 = T0;
    let mut tracker = SelfWriteTracker {
        last_apply: Some(t0),
        ..Default::default()
    };
    assert!(!tracker.is_self_write(t0 + 100 * SECOND, Some("performance")));
}

#[test]
fn test_power_self_write_suppression_window() {
    let t0 = T0;
    let mut tracker = SelfWriteTracker::default();
    tracker.register(t0, PowerProfile::Balanced);
    // Any value inside the window counts as ours.
    assert!(tracker.is_self_write(t0 + SECOND, Some("performance")));
}

#[test]
fn test_power_self_write_no_history_is_external() {
    let mut tracker = SelfWriteTracker::default();
    assert!(!tracker.is_self_write(T0, Some("performance")));
}

#[test]
fn test_power_self_write_prunes_expired_entries() {
    let t0 = T0;
    let mut tracker = SelfWriteTracker::default();
    tracker.register(t0, PowerProfile::PowerSaver);
    // 100s later the entry has expired: not a self write, entry pruned.
    assert!(!tracker.is_self_write(t0 + 100 * SECOND, Some("low-power")));
    assert!(tracker.entries.is_empty());
}

#[test]
fn test_parse_power_policy_defaults_when_empty() {
    let (policy, pct, warnings) = parse_power_policy("");
    assert_eq!(policy, PowerPolicy::default());
    assert_eq!(pct, DEFAULT_BATTERY_LOW_PCT);
    assert!(warnings.is_empty());
}

#[test]
fn test_parse_power_policy_parses_and_validates() {
    let (policy, pct, warnings) = parse_power_policy(
        "#@ docked-ac = performance\n\
         #@ battery = power-saver\n\
         #@ ac = warp-speed\n\
         #@ battery-low-percent = 80\n\
         #@ mystery-knob = 7\n",
    );
    assert_eq!(policy.docked_ac, PowerProfile::Performance);
    assert_eq!(policy.battery, PowerProfile::PowerSaver);
    assert_eq!(policy.ac, PowerProfile::Balanced); // invalid value -> default kept
    assert_eq!(pct, 50); // clamped to [1, 50]
    assert_eq!(warnings.len(), 2); // warp-speed + mystery-knob
}

#[test]
fn test_policy_for_base() {
    let policy = PowerPolicy::default();
    assert_eq!(policy.for_base(BaseState::Ac), PowerProfile::Balanced);
    assert_eq!(
        policy.for_base(BaseState::BatteryLow),
        PowerProfile::PowerSaver
    );
}

#[test]
fn hysteresis_holds_in_between() {
    assert!(battery_low_step(true, Percent::Known { whole: 17, fraction: true }, 15));
    assert!(!battery_low_step(false, Percent::Known { whole: 15, fraction: true }, 15));
    assert!(!battery_low_step(false, Percent::NotANumber, 15));
    assert!(battery_low_step(true, Percent::NotANumber, 15));
}

#[test]
fn profile_words_are_read_back() {
    for p in [PowerProfile::PowerSaver, PowerProfile::Balanced, PowerProfile::Performance] {
        assert_eq!(PowerProfile::from_str(p.as_str()), Ok(p));
        for v in platform_profile_chain(p) {
            assert_eq!(profile_from_platform_value(Some(v)), p);
        }
    }
    assert_eq!(PowerProfile::from_str("warp"), Err(ParsePowerProfileError));
    assert!(!ParsePowerProfileError.message().is_empty());
}

#[test]
fn warnings_quote_the_value() {
    let (_, _, warnings) = parse_power_policy("#@ ac = warp-speed\n");
    assert_eq!(warnings.len(), 1);
    assert!(warnings[0].contains("\"warp-speed\""));
}

#[test]
fn a_lidless_machine_is_declared() {
    let (conf, warnings) = parse_power_conf("#@ lid = absent\n");
    assert_eq!(conf.lid, LidMode::Absent);
    assert!(warnings.is_empty());
    let (conf, warnings) = parse_power_conf("#@ lid = maybe\n");
    assert_eq!(conf.lid, LidMode::Present);
    assert_eq!(warnings.len(), 1);
}

#[test]
fn the_threshold_is_clamped() {
    assert_eq!(parse_power_policy("#@ battery-low-percent = 0\n").1, 1);
    assert_eq!(parse_power_policy("#@ battery-low-percent = -7\n").1, 1);
    assert_eq!(parse_power_policy("#@ battery-low-percent = 20\n").1, 20);
}
