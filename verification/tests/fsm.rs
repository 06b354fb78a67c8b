use hyprstate::fsm::{
    desired_state, dpms_stuck_off, edp_may_disable, world_state, EventKind, State,
    StuckScreenInputs, WorldInputs,
};


fn w(lid_closed: bool, ext_mon_count: u32, inhibitor: bool) -> WorldInputs {
    WorldInputs {
        lid_closed,
        ext_mon_count,
        inhibitor,
        suspend_requested: false,
        locked: false,
        battery_low: false,
    }
}

#[test]
fn test_world_state() {
    for (inputs, expected) in [
        (w(false, 0, false), State::LidOpen),
        (w(false, 2, false), State::LidOpen),
        (w(true, 1, false), State::Docked),
        (w(true, 0, true), State::Deferred),
        (w(true, 0, false), State::Countdown),
    ] {
        assert_eq!(world_state(&inputs), expected);
    }
}

#[test]
fn test_event_moves_to_world_state() {
    let inputs = w(true, 0, false);
    assert_eq!(
        desired_state(State::LidOpen, EventKind::LidClose, &inputs),
        Some(State::Countdown)
    );
}

#[test]
fn test_same_state_is_none() {
    let inputs = w(false, 0, false);
    assert_eq!(
        desired_state(State::LidOpen, EventKind::Reconcile, &inputs),
        None
    );
}

#[test]
fn test_suspending_ignores_world_events() {
    let inputs = w(false, 0, false);
    assert_eq!(
        desired_state(State::Suspending, EventKind::LidOpen, &inputs),
        None
    );
}

#[test]
fn test_resumed_rederives_from_suspending_only() {
    let inputs = w(false, 0, false);
    assert_eq!(
        desired_state(State::Suspending, EventKind::Resumed, &inputs),
        Some(State::LidOpen)
    );
    assert_eq!(
        desired_state(State::LidOpen, EventKind::Resumed, &inputs),
        None
    );
}

#[test]
fn test_timer_expired_suspends_from_countdown() {
    let inputs = w(true, 0, false);
    assert_eq!(
        desired_state(State::Countdown, EventKind::TimerExpired, &inputs),
        Some(State::Suspending)
    );
}

#[test]
fn test_timer_expired_ignored_outside_countdown() {
    let inputs = w(true, 0, false);
    for state in [
        State::LidOpen,
        State::Docked,
        State::Deferred,
        State::Suspending,
    ] {
        assert_eq!(desired_state(state, EventKind::TimerExpired, &inputs), None);
    }
}

/// Regression: reconciler repaired lid_closed behind the FSM's back, so
/// no transition cancelled the grace timer. Expiry must re-derive, not
/// suspend.
#[test]
fn test_stale_timer_must_not_suspend_lid_open_machine() {
    let inputs = w(false, 0, false);
    assert_eq!(
        desired_state(State::Countdown, EventKind::TimerExpired, &inputs),
        Some(State::LidOpen)
    );
}

#[test]
fn test_stale_timer_rederives_docked_and_deferred() {
    assert_eq!(
        desired_state(
            State::Countdown,
            EventKind::TimerExpired,
            &w(true, 1, false)
        ),
        Some(State::Docked)
    );
    assert_eq!(
        desired_state(State::Countdown, EventKind::TimerExpired, &w(true, 0, true)),
        Some(State::Deferred)
    );
}

#[test]
fn test_ctx_repaired_drives_transition() {
    let inputs = w(true, 0, false);
    assert_eq!(
        desired_state(State::LidOpen, EventKind::CtxRepaired, &inputs),
        Some(State::Countdown)
    );
}

#[test]
fn edp_stays_on_when_it_is_the_only_output() {
    assert!(
        !edp_may_disable(0),
        "disabling the sole output leaves the compositor with no monitors"
    );
}

#[test]
fn edp_may_disable_once_an_external_is_present() {
    assert!(edp_may_disable(1));
    assert!(edp_may_disable(3));
}

fn stuck(dpms_off: bool, locked: bool, cursor_moved: bool) -> StuckScreenInputs {
    StuckScreenInputs {
        dpms_off,
        locked,
        cursor_moved,
    }
}

#[test]
fn test_stuck_dpms_ignores_screens_that_are_on() {
    assert!(!dpms_stuck_off(State::LidOpen, &stuck(false, false, true)));
}

#[test]
fn test_stuck_dpms_leaves_an_ordinary_idle_blank_alone() {
    // hypridle's locked listener blanked the session and the user is
    // still away: no cursor movement, so nothing to repair.
    assert!(!dpms_stuck_off(State::Docked, &stuck(true, true, false)));
}

#[test]
fn test_stuck_dpms_repairs_locked_session_once_user_returns() {
    // The incident: hypridle dropped on-resume, the panels stayed dark,
    // and input reached the compositor without waking anything.
    assert!(dpms_stuck_off(State::Docked, &stuck(true, true, true)));
}

#[test]
fn test_stuck_dpms_repairs_unlocked_dark_session_without_cursor_proof() {
    // hypridle locks at 180s before its unlocked listener blanks at 240s,
    // and its locked listener needs the compositor lock, so an unlocked
    // session is never blanked on purpose — unlocked + dark is repairable.
    assert!(dpms_stuck_off(State::LidOpen, &stuck(true, false, false)));
}

#[test]
fn test_stuck_dpms_stays_dark_on_the_way_to_suspend() {
    for main in [State::Countdown, State::Deferred, State::Suspending] {
        assert!(
            !dpms_stuck_off(main, &stuck(true, false, true)),
            "{} must not wake screens",
            main.as_str()
        );
    }
}

fn requested(lid_closed: bool, ext_mon_count: u32, inhibitor: bool) -> WorldInputs {
    WorldInputs { suspend_requested: true, ..w(lid_closed, ext_mon_count, inhibitor) }
}

#[test]
fn lock_ends_a_claims_authority() {
    let held = requested(false, 0, true);
    assert_eq!(world_state(&held), State::Deferred);
    let locked = WorldInputs { locked: true, ..held };
    assert_eq!(world_state(&locked), State::Countdown);
}

#[test]
fn a_request_outranks_docked() {
    assert_eq!(world_state(&w(true, 1, false)), State::Docked);
    assert_eq!(world_state(&requested(true, 1, false)), State::Countdown);
}

#[test]
fn a_docked_laptop_with_a_request_suspends() {
    let docked = requested(true, 2, false);
    assert_eq!(
        desired_state(State::Docked, EventKind::SuspendRequestChanged, &docked),
        Some(State::Countdown)
    );
    assert_eq!(
        desired_state(State::Countdown, EventKind::TimerExpired, &docked),
        Some(State::Suspending)
    );
}

#[test]
fn battery_low_overrides_the_claim() {
    let held = requested(false, 0, true);
    assert_eq!(world_state(&held), State::Deferred);
    let low = WorldInputs { battery_low: true, ..held };
    assert_eq!(world_state(&low), State::Countdown);
}

#[test]
fn states_have_labels() {
    assert_eq!(State::LidOpen.as_str(), "LID_OPEN");
    assert_eq!(State::Docked.as_str(), "DOCKED");
    assert_eq!(State::Deferred.as_str(), "DEFERRED");
    assert_eq!(State::Countdown.as_str(), "COUNTDOWN");
    assert_eq!(State::Suspending.as_str(), "SUSPENDING");
}
