use hyprstate::sleep_hook::{
    attempt_failed_line, closing, device_line, devices_with, hook_label, hubs_line, opening,
    root_hubs_line, HookDevice, Rebind, Role, REBIND_ATTEMPTS,
};

fn device(name: &str, product: Option<&str>, ids: Option<(&str, &str)>, wakes: bool) -> HookDevice {
    HookDevice {
        name: name.to_string(),
        product: product.map(str::to_string),
        vendor_id: ids.map(|i| i.0.to_string()),
        product_id: ids.map(|i| i.1.to_string()),
        wakes,
    }
}

#[test]
fn other_actions_are_ignored() {
    assert_eq!(hook_label("pre"), Some("PRE-SUSPEND"));
    assert_eq!(hook_label("post"), Some("POST-RESUME"));
    assert_eq!(hook_label("suspend"), None);
}

#[test]
fn devices_play_their_roles() {
    let devices = vec![
        device("usb1", None, None, true),
        device("usb2", None, None, false),
        device("1-1", Some("USB2.0 Hub\n"), None, true),
        device("1-2", Some("Voyager"), Some(("3297\n", "1977\n")), true),
        device("1-3", Some("Receiver"), Some(("046d", "c539")), false),
        device("1-4", None, Some(("dead", "beef")), true),
    ];
    assert_eq!(devices_with(&devices, Role::RootHub), vec![0]);
    assert_eq!(devices_with(&devices, Role::Hub), vec![2]);
    assert_eq!(devices_with(&devices, Role::Input), vec![3]);
    assert_eq!(devices[3].tracked_input(), Some("ZSA Voyager (keyboard)"));
    assert_eq!(devices[5].tracked_input(), None);
}

#[test]
fn lines_of_the_log() {
    assert_eq!(opening("PRE-SUSPEND"), "=== PRE-SUSPEND: enabling USB wake ===");
    assert_eq!(closing("PRE-SUSPEND"), "=== PRE-SUSPEND complete ===");
    assert_eq!(device_line("controller", true), "  controller: enabled");
    assert_eq!(device_line("controller", false), "  controller: FAILED");
    assert_eq!(root_hubs_line(3, 4), "  root hubs: 3/4 enabled");
    assert_eq!(hubs_line(2), "  intermediate hubs: 2 enabled");
    assert_eq!(
        attempt_failed_line(2, "Ok(())"),
        "  touchpad rebind: attempt 2 failed (Ok(())); retrying"
    );
}

#[test]
fn a_touchpad_is_rebound_in_the_end() {
    let mut s = Rebind::start(true);
    assert_eq!(s, Rebind::Attempt(1));
    s = s.step(false, false);
    assert_eq!(s, Rebind::Attempt(2));
    // A write that went well proves nothing.
    s = s.step(true, false);
    assert_eq!(s, Rebind::Attempt(3));
    s = s.step(true, true);
    assert_eq!(s, Rebind::Recovered(3));
    assert_eq!(s.line(true).unwrap(), "  touchpad rebind: ok (attempt 3)");
    assert_eq!(
        Rebind::start(true).step(true, true).line(true).unwrap(),
        "  touchpad rebind: ok"
    );
}

#[test]
fn attempts_run_out() {
    let mut s = Rebind::start(true);
    for _ in 0..REBIND_ATTEMPTS {
        s = s.step(false, true);
    }
    assert_eq!(s, Rebind::GaveUp);
    assert_eq!(
        s.line(true).unwrap(),
        "  touchpad rebind: FAILED (still bound; may still be wedged)"
    );
    assert_eq!(
        s.line(false).unwrap(),
        "  ! touchpad rebind: FAILED \u{2014} device left UNBOUND; recover with: \
         echo -n i2c-PIXA3854:00 | sudo tee /sys/bus/i2c/drivers/i2c_hid_acpi/bind"
    );
    let gone = Rebind::start(false);
    assert_eq!(gone, Rebind::Absent);
    assert_eq!(gone.line(false).unwrap(), "  touchpad rebind: skipped (device absent)");
}
