use hyprstate::ctx::Context;
use hyprstate::fsm::{EventKind, State};
use hyprstate::tasks::{Cause, Fired, Note, NoteKind};
use hyprstate::telemetry::{
    frame, on_enter_effector_names, Delivery, FrameCtx, TelemetryEmitter, TelemetryFrame,
};

#[test]
fn frame_serialization_roundtrip() {
    let frame = TelemetryFrame {
        ts: 1719100000000,
        kind: "transition",
        from: "LID_OPEN",
        event: "LidClose",
        to: "COUNTDOWN",
        screen: "SCREEN_ACTIVE",
        ctx: FrameCtx {
            lid_closed: true,
            ext_mon_count: 0,
            inhibitor: false,
            locked: false,
            on_ac: true,
            low_battery: false,
            power_base: "ac".into(),
            desired_profile: "balanced".into(),
            applied_profile: "balanced".into(),
            active_profile: "ultrawide".into(),
        },
        effectors: vec!["start_grace_timer"],
    };

    let json = frame.to_json();
    assert!(json.contains("\"kind\":\"transition\""));
    assert!(json.contains("\"from\":\"LID_OPEN\""));
    assert!(json.contains("\"event\":\"LidClose\""));
    assert!(json.contains("\"to\":\"COUNTDOWN\""));
    assert!(json.contains("\"screen\":\"SCREEN_ACTIVE\""));
    assert!(json.contains("\"lid_closed\":true"));
    assert!(json.contains("\"ext_mon_count\":0"));
    assert!(json.contains("\"power_base\":\"ac\""));
    assert!(json.contains("\"active_profile\":\"ultrawide\""));
    assert!(json.contains("\"effectors\":[\"start_grace_timer\"]"));

    let val: serde_json::Value = serde_json::from_str(&json).expect("deserialize");
    assert_eq!(val["ts"], 1719100000000u64);
    assert_eq!(val["kind"], "transition");
}

fn sample() -> FrameCtx {
    FrameCtx {
        lid_closed: false,
        ext_mon_count: 2,
        inhibitor: false,
        locked: false,
        on_ac: true,
        low_battery: false,
        power_base: "docked-ac".into(),
        desired_profile: "balanced".into(),
        applied_profile: "balanced".into(),
        active_profile: "dual".into(),
    }
}

#[test]
fn fingerprint_ignores_identical_ctx() {
    let a = FrameCtx {
        lid_closed: false,
        ext_mon_count: 2,
        inhibitor: false,
        locked: false,
        on_ac: true,
        low_battery: false,
        power_base: "docked-ac".into(),
        desired_profile: "balanced".into(),
        applied_profile: "balanced".into(),
        active_profile: "dual".into(),
    };
    let b = a.clone();
    assert_eq!(a.fingerprint(), b.fingerprint());
}

#[test]
fn fingerprint_sees_every_field() {
    let a = sample();
    let mut others = Vec::new();
    for i in 0..10 {
        let mut b = sample();
        match i {
            0 => b.lid_closed = true,
            1 => b.ext_mon_count = 3,
            2 => b.inhibitor = true,
            3 => b.locked = true,
            4 => b.on_ac = false,
            5 => b.low_battery = true,
            6 => b.power_base = "ac".into(),
            7 => b.desired_profile = "performance".into(),
            8 => b.applied_profile = "performance".into(),
            _ => b.active_profile = "solo".into(),
        }
        others.push(b);
    }
    for b in others {
        assert_ne!(a.fingerprint(), b.fingerprint());
    }
}

#[test]
fn frames_say_what_the_context_holds() {
    let ctx = Context::default();
    let f = frame(
        &ctx,
        Note {
            kind: NoteKind::Transition,
            cause: Cause::Event(EventKind::LidClose),
            from: State::LidOpen,
            to: State::Countdown,
            fired: Fired::Entered(State::Countdown),
        },
        7,
    );
    assert_eq!(f.kind, "transition");
    assert_eq!(f.event, "LidClose");
    assert_eq!(f.from, "LID_OPEN");
    assert_eq!(f.to, "COUNTDOWN");
    assert_eq!(f.screen, "SCREEN_ACTIVE");
    assert_eq!(f.effectors, on_enter_effector_names(State::Countdown));
    assert_eq!(f.ctx.power_base, "ac");
    assert_eq!(f.ctx.desired_profile, "balanced");
    assert_eq!(f.ctx.applied_profile, "");
    assert_eq!(f.ctx.active_profile, "");
    assert!(f.line().ends_with("}\n"));
}

#[test]
fn a_frame_is_sent_once() {
    let mut e = TelemetryEmitter::new();
    assert_eq!(e.emit_if_changed(5), Delivery::Connect);
    assert_eq!(e.connect_done(true), Delivery::Write);
    assert_eq!(e.write_done(5, true), Delivery::Done(true));
    assert_eq!(e.emit_if_changed(5), Delivery::Done(false));
    assert_eq!(e.emit_if_changed(6), Delivery::Write);
}

#[test]
fn a_failed_frame_is_tried_twice_and_not_forgotten() {
    let mut e = TelemetryEmitter::new();
    assert_eq!(e.emit_if_changed(5), Delivery::Connect);
    assert_eq!(e.connect_done(true), Delivery::Write);
    assert_eq!(e.write_done(5, false), Delivery::Connect);
    assert_eq!(e.connect_done(true), Delivery::Write);
    assert_eq!(e.write_done(5, false), Delivery::Done(false));
    assert_eq!(e.emit_if_changed(5), Delivery::Connect);
    assert_eq!(e.connect_done(false), Delivery::Done(false));
    assert_eq!(e.emit_if_changed(5), Delivery::Connect);
}
