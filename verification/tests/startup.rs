use hyprstate::ctx::Context;
use hyprstate::power::{BaseState, LidMode, Percent, PowerProfile};
use hyprstate::profiles::{EdpPolicy, GpuPref, Profile};
use hyprstate::startup::{
    backlight_device, configure, discover_backlight, load_power_conf, seed_battery, seed_profile,
    wake_state, wake_usb_label, UsbDevice,
};
use hyprstate::toml_profile::TomlProfile;

fn strings(v: &[&str]) -> Vec<String> {
    v.iter().map(|s| s.to_string()).collect()
}

fn usb(name: &str, vendor: &str, product: &str, wakeup: Option<&str>) -> UsbDevice {
    UsbDevice {
        name: name.to_string(),
        vendor: Some(vendor.to_string()),
        product: Some(product.to_string()),
        wakeup: wakeup.map(str::to_string),
    }
}

#[test]
fn tracked_devices_have_labels() {
    assert_eq!(wake_usb_label("3297", "1977"), Some("ZSA Voyager (keyboard)"));
    assert_eq!(wake_usb_label("046d", "c539"), Some("Logitech Lightspeed (mouse receiver)"));
    assert_eq!(wake_usb_label("046d", "1977"), None);
}

#[test]
fn the_wake_report_names_what_is_disabled() {
    let devices = vec![
        usb("usb1", "1d6b", "0002", Some("disabled\n")),
        usb("1-2", "3297\n", "1977\n", Some("enabled\n")),
        usb("1-3", "dead", "beef", Some("disabled\n")),
        usb("1-4", "046d", "c539", None),
    ];
    let report = wake_state(&Some("enabled\n".to_string()), &devices);
    assert_eq!(
        report.summary(),
        "usb-wake state: controller=enabled usb1=disabled ZSA Voyager (keyboard)=enabled"
    );
    assert_eq!(
        report.warning().unwrap(),
        "wake disabled on: usb1 \u{2014} check sleep hook install"
    );
    let empty = wake_state(&None, &vec![]);
    assert_eq!(empty.summary(), "usb-wake state: (none of the tracked devices found)");
    assert_eq!(empty.warning(), None);
}

#[test]
fn panel_backlights_are_preferred() {
    assert_eq!(
        backlight_device(&strings(&["zz", "ddcci7", "amdgpu_bl2", "amdgpu_bl1"])),
        Some("amdgpu_bl1".to_string())
    );
    assert_eq!(backlight_device(&strings(&["zz", "aa"])), Some("aa".to_string()));
    assert_eq!(backlight_device(&strings(&["ddcci1"])), None);
    assert_eq!(backlight_device(&vec![]), None);
}

#[test]
fn a_backlight_needs_a_level() {
    let mut ctx = Context::default();
    discover_backlight(&mut ctx.backlight, "bl".to_string(), None);
    assert_eq!(ctx.backlight.dev, None);
    discover_backlight(&mut ctx.backlight, "bl".to_string(), Some("0\n"));
    assert_eq!(ctx.backlight.dev, None);
    discover_backlight(&mut ctx.backlight, "bl".to_string(), Some("255\n"));
    assert_eq!(ctx.backlight.dev, Some("bl".to_string()));
    assert_eq!(ctx.backlight.max, 255);
}

#[test]
fn the_linked_profile_is_in_force_from_the_start() {
    let desk = TomlProfile {
        inner: Profile {
            name: "desk".to_string(),
            matches: strings(&["Dell"]),
            edp: EdpPolicy::Disable,
            gpu: GpuPref::Auto,
            hooks: vec![],
            priority: 1,
        },
        layout: "l".to_string(),
    };
    let mut ctx = Context::default();
    seed_profile(&mut ctx.profile, None, &vec![desk.clone()]);
    assert_eq!(ctx.profile.current, None);
    seed_profile(&mut ctx.profile, Some("gone".to_string()), &vec![desk.clone()]);
    assert_eq!(ctx.profile.current, Some("gone".to_string()));
    assert_eq!(ctx.profile.edp_policy, EdpPolicy::Auto);
    seed_profile(&mut ctx.profile, Some("desk".to_string()), &vec![desk.clone()]);
    assert_eq!(ctx.profile.edp_policy, EdpPolicy::Disable);
    assert!(ctx.profile.rev.as_ref().unwrap().same(&desk));
}

#[test]
fn a_machine_without_a_battery_is_never_low() {
    let mut ctx = Context::default();
    seed_battery(&mut ctx.power, Some(Percent::exactly(15)));
    assert!(ctx.power.low_battery);
    seed_battery(&mut ctx.power, Some(Percent::exactly(16)));
    assert!(!ctx.power.low_battery);
    assert!(matches!(ctx.power.battery_percent, Some(Percent::Known { whole: 16, .. })));
    seed_battery(&mut ctx.power, None);
    assert!(!ctx.power.low_battery);
    assert!(ctx.power.battery_percent.is_none());
}

#[test]
fn configuration_reaches_the_context() {
    let (conf, warnings) = load_power_conf(None);
    assert!(warnings.is_empty());
    assert_eq!(conf.battery_low_pct, 15);
    assert_eq!(conf.lid, LidMode::Present);
    let (conf, warnings) =
        load_power_conf(Some("#@ battery = balanced\n#@ battery-low-percent = 20\n#@ lid = absent\n"));
    assert!(warnings.is_empty(), "{warnings:?}");
    let mut ctx = Context::default();
    configure(&mut ctx, &conf);
    assert_eq!(ctx.power.policy.for_base(BaseState::Battery), PowerProfile::Balanced);
    assert_eq!(ctx.power.battery_low_pct, 20);
    assert!(!ctx.inputs.lid_present);
}
