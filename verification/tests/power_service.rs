use hyprstate::power::PowerProfile::{Balanced, Performance, PowerSaver};
use hyprstate::powerd::{caller_authorized, denial, Power1, Turn};

#[test]
fn callers_need_the_authority_to_agree() {
    assert!(caller_authorized(":1.7", Some(true)));
    assert!(!caller_authorized(":1.7", Some(false)));
    assert!(!caller_authorized(":1.7", None));
    assert!(!caller_authorized("", Some(true)));
    assert!(denial(":1.7").contains(":1.7"));
}

#[test]
fn the_last_of_a_burst_is_applied() {
    let mut s = Power1::new(Balanced, true);
    assert_eq!(s.request("power-saver").unwrap(), PowerSaver);
    assert_eq!(s.request("performance").unwrap(), Performance);
    assert_eq!(s.turn(PowerSaver), Turn::SupersededBy(Performance));
    assert_eq!(
        s.turn(PowerSaver).coalesced(),
        Some("superseded-by:performance".to_string())
    );
    assert_eq!(s.turn(Performance), Turn::Apply);
    assert_eq!(Turn::Apply.coalesced(), None);
    // Asking has applied nothing yet.
    assert_eq!(s.active, Balanced);
    s.applied(Performance);
    assert_eq!(s.active, Performance);
}

#[test]
fn unknown_profiles_are_refused() {
    let mut s = Power1::new(Balanced, false);
    let e = s.request("turbo").unwrap_err();
    assert!(e.contains("turbo"), "{e}");
    assert_eq!(s.latest, None);
    assert_eq!(s.turn(Balanced), Turn::Unknown);
}
