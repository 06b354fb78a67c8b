use hyprstate::power_flow::{battery_low_action, BatteryLowAction};

#[test]
fn requests_only_when_genuinely_discharging_low() {
    // (low, on_ac, on_ac_settled, standing) -> action
    assert_eq!(
        battery_low_action(true, false, false, false),
        BatteryLowAction::Request
    );
    // A machine that wakes on the charger has raw on_ac
    // true while on_ac_settled is still false for the 5 s debounce; a
    // UPower percent event in that window must NOT request.
    assert_eq!(
        battery_low_action(true, true, false, false),
        BatteryLowAction::Hold
    );
    // Stale-true settled axis alone also blocks a request.
    assert_eq!(
        battery_low_action(true, false, true, false),
        BatteryLowAction::Hold
    );
    // Not low, nothing standing: nothing to do.
    assert_eq!(
        battery_low_action(false, false, false, false),
        BatteryLowAction::Hold
    );
}

#[test]
fn withdraws_the_moment_the_reason_is_gone() {
    // A plug-in during the 30 s grace must cancel the
    // standing request - re-derivation alone cannot, because
    // suspend_requested short-circuits world_state. The raw axis is
    // enough: cancellation follows the fast signal.
    assert_eq!(
        battery_low_action(true, true, false, true),
        BatteryLowAction::Withdraw
    );
    // Battery recovered (charged above threshold + hysteresis).
    assert_eq!(
        battery_low_action(false, false, false, true),
        BatteryLowAction::Withdraw
    );
    // Still discharging low with a request standing: hold, idempotent.
    assert_eq!(
        battery_low_action(true, false, false, true),
        BatteryLowAction::Hold
    );
}
