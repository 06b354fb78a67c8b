use hyprstate::hypridle_log::{parse_inhibit_locks, wayland_inhibitor_active, ParseHealth};


#[test]
fn last_inhibit_locks_wins() {
    let text = "[LOG] Inhibit locks: 1\n[LOG] Inhibit locks: 0\n";
    assert_eq!(parse_inhibit_locks(text), Some(0));
}

#[test]
fn chromium_screensaver_lock_is_held() {
    let text = "[LOG] ScreenSaver inhibit: true dbus message from /usr/lib/chromium/chromium (owner: :1.240) with content Video Wake Lock\n[LOG] Inhibit locks: 1\n";
    assert_eq!(parse_inhibit_locks(text), Some(1));
}

#[test]
fn on_idled_lowercase_marker() {
    let text = "[LOG] Ignoring from onIdled(), inhibit locks: 1\n";
    assert_eq!(parse_inhibit_locks(text), Some(1));
}

#[test]
fn no_marker() {
    assert_eq!(parse_inhibit_locks("nothing here"), None);
}

#[test]
fn only_a_healthy_count_inhibits() {
    assert_eq!(wayland_inhibitor_active(None), (false, ParseHealth::ReadError));
    assert_eq!(wayland_inhibitor_active(Some("")), (false, ParseHealth::LogMissing));
    assert_eq!(wayland_inhibitor_active(Some("noise")), (false, ParseHealth::NoMarkerFound));
    assert_eq!(
        wayland_inhibitor_active(Some("Inhibit locks: 2\n")),
        (true, ParseHealth::Healthy)
    );
    assert_eq!(
        wayland_inhibitor_active(Some("Inhibit locks: 0\n")),
        (false, ParseHealth::Healthy)
    );
    assert_eq!(ParseHealth::Healthy.as_str(), "ok");
}
