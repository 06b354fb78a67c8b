use hyprstate::ctx::Context;
use hyprstate::dispatcher::Dispatcher;
use hyprstate::effectors::Cmd;
use hyprstate::event::{Event, ReconcileSnapshot};
use hyprstate::fsm::State;
use hyprstate::gpu::{resolve_gpu_mode, GpuSnapshot};
use hyprstate::gpu_drift::overlay_word;
use hyprstate::main_flow::Mode;
use hyprstate::power::{BaseState, Percent, PowerProfile};
use hyprstate::power_cli::{set_action, SetAction};
use hyprstate::profile_flow::breadcrumb_text;
use hyprstate::profiles::{EdpPolicy, GpuPref, Profile};
use hyprstate::sysfs::read_first_word;
use hyprstate::tasks::{Action, GpuInputs, PowerTask, Reply, Task};
use hyprstate::toml_profile::TomlProfile;

const SECOND: u64 = 1_000_000_000;

/// What the world answers, and what was asked of it.
struct World {
    now: u64,
    locker: bool,
    lock_engages: bool,
    request: bool,
    own_request: bool,
    monitors: Option<u32>,
    signature: Vec<String>,
    profiles: Vec<TomlProfile>,
    linked: Option<String>,
    powerd: bool,
    brightness: Option<u32>,
    timer: bool,
    log: Vec<String>,
}

impl World {
    fn new() -> World {
        World {
            now: 1_000 * SECOND,
            locker: false,
            lock_engages: true,
            request: false,
            own_request: false,
            monitors: Some(0),
            signature: vec![],
            profiles: vec![],
            linked: None,
            powerd: true,
            brightness: None,
            timer: false,
            log: vec![],
        }
    }

    fn answer(&mut self, a: &Action<String>) -> Reply {
        if !matches!(a, Action::Tell(_)) {
            self.log.push(format!("{a:?}"));
        }
        match a {
            Action::ReadActiveProfile => Reply::Text(self.linked.clone()),
            Action::LoadProfiles => Reply::Profiles(self.profiles.clone()),
            Action::ReadSignature => Reply::Names(self.signature.clone()),
            Action::CountMonitors => Reply::Count(self.monitors),
            Action::ProbeSuspendRequest => Reply::Flag(self.request),
            Action::ProbeProfileLink(n) => Reply::Flag(self.linked.as_ref() == Some(n)),
            Action::ReadBrightness(_) => Reply::Level(self.brightness),
            Action::ProbeGraceTimer => Reply::Flag(self.timer),
            Action::ProbeLocker => Reply::Flag(self.locker),
            Action::WaitForLock => {
                self.locker = self.locker || self.lock_engages;
                Reply::Flag(self.lock_engages)
            }
            Action::ReadSessionDevices => Reply::Devices(None),
            Action::ReadSelectReason => Reply::Text(None),
            Action::ReadGpuInputs => Reply::Gpu(GpuInputs {
                override_word: None,
                platform_word: None,
                snapshot: GpuSnapshot::default(),
            }),
            Action::RestartGraceTimer => {
                self.timer = true;
                Reply::Nothing
            }
            Action::CancelGraceTimer => {
                self.timer = false;
                Reply::Nothing
            }
            Action::ApplyPower(_) | Action::SetDgpuAwake(_) => Reply::Flag(self.powerd),
            Action::SetBrightness { level, .. } => {
                self.brightness = Some(*level);
                Reply::Flag(true)
            }
            Action::RepointProfile(n) => {
                self.linked = Some(n.clone());
                Reply::Flag(true)
            }
            Action::RequestSuspend => {
                self.request = true;
                self.own_request = true;
                Reply::Flag(true)
            }
            Action::WithdrawSuspend => {
                let mine = self.own_request;
                if mine {
                    self.request = false;
                    self.own_request = false;
                }
                Reply::Flag(mine)
            }
            Action::ClearSuspendRequest => {
                self.request = false;
                Reply::Nothing
            }
            _ => Reply::Nothing,
        }
    }

    fn settle(&mut self, d: &mut Dispatcher) {
        let mut reply = Reply::Nothing;
        let mut steps = 0;
        while !d.is_idle() {
            reply = match d.step(self.now, &reply) {
                Some(a) => self.answer(&a),
                None => Reply::Nothing,
            };
            steps += 1;
            assert!(steps < 1000, "the queue does not drain");
        }
    }

    fn send(&mut self, d: &mut Dispatcher, ev: Event) {
        self.log.clear();
        d.receive(self.now, &ev);
        self.settle(d);
    }

    fn did(&self, what: &str) -> bool {
        self.log.iter().any(|l| l == what)
    }
}

fn live() -> Mode {
    Mode { shadow: false, session: true }
}

fn start(w: &mut World, mode: Mode) -> Dispatcher {
    let mut d = Dispatcher::start(Context::default(), mode);
    w.settle(&mut d);
    d
}

#[test]
fn startup_drops_a_request_and_pins_the_gpu() {
    let mut w = World::new();
    w.request = true;
    let d = start(&mut w, live());
    assert_eq!(d.ctx.inputs.state, State::LidOpen);
    assert!(w.did("ClearSuspendRequest"));
    assert!(!w.request);
    assert!(w.did("SetDgpuAwake(false)"));
    assert_eq!(d.ctx.gpu.pinned, Some(false));
}

#[test]
fn closing_the_lid_counts_down_and_suspends_behind_a_lock() {
    let mut w = World::new();
    let mut d = start(&mut w, live());
    w.send(&mut d, Event::Lid(true));
    assert_eq!(d.ctx.inputs.state, State::Countdown);
    assert!(w.timer);
    assert!(!w.log.iter().any(|l| l.contains("SetEdp")), "the only output stays on");
    w.timer = false;
    w.send(&mut d, Event::TimerExpired);
    assert_eq!(
        w.log,
        vec!["CancelGraceTimer", "ProbeLocker", "RequestLock", "WaitForLock", "ProbeLocker", "Suspend"]
    );
    assert_eq!(d.ctx.inputs.state, State::Suspending);
    w.send(&mut d, Event::Lid(false));
    assert_eq!(d.ctx.inputs.state, State::Suspending);
    w.send(&mut d, Event::Resumed);
    assert_eq!(d.ctx.inputs.state, State::LidOpen);
}

#[test]
fn a_live_locker_needs_no_request() {
    let mut w = World::new();
    w.locker = true;
    let mut d = start(&mut w, live());
    w.send(&mut d, Event::Lid(true));
    w.send(&mut d, Event::TimerExpired);
    assert_eq!(w.log, vec!["CancelGraceTimer", "ProbeLocker", "Suspend"]);
}

#[test]
fn a_broken_locker_keeps_the_machine_awake() {
    let mut w = World::new();
    w.lock_engages = false;
    let mut d = start(&mut w, live());
    w.send(&mut d, Event::Lid(true));
    w.send(&mut d, Event::TimerExpired);
    assert!(!w.did("Suspend"));
    assert_eq!(d.ctx.inputs.state, State::Countdown);
    assert!(w.did("RestartGraceTimer"));
}

#[test]
fn a_watching_daemon_changes_nothing() {
    let mut w = World::new();
    w.profiles = vec![profile("desk", EdpPolicy::Disable)];
    w.signature = vec!["Dell".to_string()];
    let mut d = start(&mut w, Mode { shadow: true, session: true });
    let mut seen: Vec<String> = w.log.clone();
    for ev in [
        Event::Lid(true),
        Event::MonitorsChanged,
        Event::ConfigReloaded,
        Event::AcChanged(false),
        Event::PowerAcSettled,
        Event::BatteryPercent(Percent::exactly(5)),
        Event::PlatformProfileChanged(Some("performance".to_string())),
        Event::TimerExpired,
        Event::Resumed,
    ] {
        w.send(&mut d, ev);
        seen.extend(w.log.clone());
    }
    for l in seen {
        for bad in ["Run(", "Suspend", "RequestLock", "WriteOverride", "ApplyPower", "Repoint", "SetDgpu", "WriteBreadcrumb", "Clear"] {
            assert!(!l.starts_with(bad), "{l}");
        }
    }
}

fn profile(name: &str, edp: EdpPolicy) -> TomlProfile {
    TomlProfile {
        inner: Profile {
            name: name.to_string(),
            matches: vec!["Dell".to_string()],
            edp,
            gpu: GpuPref::Auto,
            hooks: vec!["notify-send hi".to_string()],
            priority: 1,
        },
        layout: "scale = 1.5".to_string(),
    }
}

#[test]
fn a_changed_set_of_monitors_applies_its_profile() {
    let mut w = World::new();
    w.profiles = vec![profile("desk", EdpPolicy::Disable)];
    w.signature = vec!["Dell U2723QE".to_string()];
    let mut d = start(&mut w, live());
    w.send(&mut d, Event::MonitorsChanged);
    assert_eq!(w.linked, Some("desk".to_string()));
    assert_eq!(d.ctx.profile.current, Some("desk".to_string()));
    assert_eq!(d.ctx.profile.edp_policy, EdpPolicy::Disable);
    assert!(w.did("Run(Reload)"));
    assert!(w.log.iter().any(|l| l.contains("notify-send hi")));
    assert_eq!(d.ctx.inputs.state, State::LidOpen);
    // The same again changes nothing; another body is applied again.
    w.send(&mut d, Event::MonitorsChanged);
    assert!(!w.did("Run(Reload)"));
    w.profiles = vec![profile("desk", EdpPolicy::Enable)];
    w.send(&mut d, Event::MonitorsChanged);
    assert!(w.did("Run(Reload)"));
    assert_eq!(d.ctx.profile.edp_policy, EdpPolicy::Enable);
    // So is one with another layout alone.
    w.send(&mut d, Event::MonitorsChanged);
    assert!(!w.did("Run(Reload)"));
    w.profiles[0].layout = "scale = 2".to_string();
    w.send(&mut d, Event::MonitorsChanged);
    assert!(w.did("Run(Reload)"));
}

#[test]
fn docking_disables_the_panel_and_a_policy_outranks_the_lid() {
    let mut w = World::new();
    w.monitors = Some(1);
    let mut d = start(&mut w, live());
    w.send(&mut d, Event::MonitorHotplug { added: true, name: "DP-1".to_string() });
    assert_eq!(d.ctx.inputs.ext_mon_count, 1);
    w.send(&mut d, Event::Lid(true));
    assert_eq!(d.ctx.inputs.state, State::Docked);
    assert!(w.did(&format!("{:?}", Action::<String>::Run(Cmd::SetEdp { on: false }))));
    d.ctx.profile.edp_policy = EdpPolicy::Enable;
    w.send(&mut d, Event::ConfigReloaded);
    assert!(w.did(&format!("{:?}", Action::<String>::Run(Cmd::SetEdp { on: true }))));
}

#[test]
fn the_charger_settles_before_policy_follows() {
    let mut w = World::new();
    let mut d = start(&mut w, live());
    w.send(&mut d, Event::PowerOverrideChanged(None));
    assert!(w.did("ApplyPower(Balanced)"));
    w.send(&mut d, Event::AcChanged(false));
    assert!(!w.log.iter().any(|l| l.starts_with("ApplyPower")));
    assert!(w.did("RestartPowerSettle"));
    w.send(&mut d, Event::PowerAcSettled);
    assert!(w.did("ApplyPower(PowerSaver)"));
    assert_eq!(d.ctx.power.applied, Some(PowerProfile::PowerSaver));
}

#[test]
fn an_override_ends_when_the_charger_is_pulled() {
    let mut w = World::new();
    let mut d = start(&mut w, live());
    w.send(&mut d, Event::PowerOverrideChanged(Some("performance".to_string())));
    assert!(w.did("ApplyPower(Performance)"));
    w.send(&mut d, Event::AcChanged(false));
    w.send(&mut d, Event::PowerAcSettled);
    assert!(w.did("RemoveOverride"));
    assert_eq!(d.ctx.power.manual, None);
    assert!(w.did("ApplyPower(PowerSaver)"));
}

#[test]
fn somebody_elses_profile_is_adopted_and_our_own_is_not() {
    let mut w = World::new();
    let mut d = start(&mut w, live());
    w.send(&mut d, Event::PowerOverrideChanged(None));
    w.send(&mut d, Event::PlatformProfileChanged(Some("balanced".to_string())));
    assert_eq!(d.ctx.power.manual, None);
    w.now += 100 * SECOND;
    w.send(&mut d, Event::PlatformProfileChanged(Some("performance".to_string())));
    assert_eq!(d.ctx.power.manual, Some(PowerProfile::Performance));
    assert!(w.did("WriteOverride(Performance)"));
}

#[test]
fn a_service_that_is_gone_is_asked_again_when_it_is_back() {
    let mut w = World::new();
    w.powerd = false;
    let mut d = start(&mut w, live());
    assert!(!d.ctx.power.powerd_available);
    w.send(&mut d, Event::PowerOverrideChanged(None));
    assert!(!w.log.iter().any(|l| l.starts_with("ApplyPower")));
    w.powerd = true;
    w.send(&mut d, Event::PowerdAppeared);
    assert!(d.ctx.power.powerd_available);
    assert!(w.did("ApplyPower(Balanced)"));
}

#[test]
fn a_low_battery_requests_a_suspend_and_the_charger_takes_it_back() {
    let mut w = World::new();
    let mut d = start(&mut w, live());
    w.send(&mut d, Event::AcChanged(false));
    w.send(&mut d, Event::PowerAcSettled);
    w.send(&mut d, Event::BatteryPercent(Percent::exactly(10)));
    assert!(w.did("RequestSuspend"));
    assert!(d.ctx.inputs.suspend_requested);
    assert_eq!(d.ctx.inputs.state, State::Countdown);
    w.send(&mut d, Event::AcChanged(true));
    assert!(w.did("WithdrawSuspend"));
    assert!(!d.ctx.inputs.suspend_requested);
    assert_eq!(d.ctx.inputs.state, State::LidOpen);
    assert!(!w.timer);
}

#[test]
fn a_withdrawn_request_does_not_suspend_when_the_timer_runs_out() {
    let mut w = World::new();
    let mut d = start(&mut w, live());
    w.request = true;
    w.send(&mut d, Event::SuspendRequestChanged(Some("idle".to_string())));
    assert_eq!(d.ctx.inputs.state, State::Countdown);
    w.request = false;
    w.send(&mut d, Event::TimerExpired);
    assert!(!w.did("Suspend"));
    assert_eq!(d.ctx.inputs.state, State::LidOpen);
}

#[test]
fn the_reconciler_repairs_what_was_missed() {
    let mut w = World::new();
    let mut d = start(&mut w, live());
    let snap = ReconcileSnapshot {
        lid_closed: true,
        ext_mon_count: 0,
        on_ac: Some(true),
        ..ReconcileSnapshot::default()
    };
    w.send(&mut d, Event::ReconcileTick(snap));
    assert!(d.ctx.inputs.lid_closed);
    assert_eq!(d.ctx.inputs.state, State::Countdown);
    w.send(&mut d, Event::ReconcileTick(snap));
    assert_eq!(d.ctx.inputs.state, State::Countdown);
}

#[test]
fn stuck_screens_are_lit() {
    let mut w = World::new();
    let mut d = start(&mut w, live());
    let snap = ReconcileSnapshot {
        on_ac: Some(true),
        locked: Some(false),
        dpms_off: Some(true),
        ..ReconcileSnapshot::default()
    };
    w.send(&mut d, Event::ReconcileTick(snap));
    assert!(w.log.iter().any(|l| l.contains("Dpms")), "{:?}", w.log);
}

#[test]
fn a_lidless_machine_ignores_the_lid() {
    let mut w = World::new();
    let mut d = start(&mut w, live());
    d.ctx.inputs.lid_present = false;
    w.send(&mut d, Event::Lid(true));
    assert!(!d.ctx.inputs.lid_closed);
    assert_eq!(d.ctx.inputs.state, State::LidOpen);
}

#[test]
fn what_is_set_is_taken_up_and_its_echo_changes_nothing() {
    let content = match set_action(Some("performance")) {
        SetAction::Write { content, .. } => content,
        other => panic!("{other:?}"),
    };
    let mut w = World::new();
    let mut d = start(&mut w, live());
    let word = read_first_word(Some(&content));
    w.send(&mut d, Event::PowerOverrideChanged(word.clone()));
    assert_eq!(d.ctx.power.manual, Some(PowerProfile::Performance));
    let stamped = d.ctx.power.manual_base;
    assert!(stamped.is_some());
    w.send(&mut d, Event::PowerOverrideChanged(word));
    assert_eq!(d.ctx.power.manual, Some(PowerProfile::Performance));
    assert_eq!(d.ctx.power.manual_base, stamped);
    assert!(!w.log.iter().any(|l| l.starts_with("ApplyPower")));
}

#[test]
fn one_login_brings_what_was_advised() {
    for pref in [GpuPref::Igpu, GpuPref::Dgpu] {
        let crumb = read_first_word(Some(&breadcrumb_text(pref)));
        assert_eq!(crumb, Some(pref.as_str().to_string()));
        let (at_login, _, _) = resolve_gpu_mode(None, crumb.as_deref(), Some("balanced"));
        let (advised, _, _) = resolve_gpu_mode(None, overlay_word(pref), Some("balanced"));
        assert_eq!(at_login, advised);
    }
}

#[test]
fn a_reload_keeps_the_countdown_running() {
    let mut w = World::new();
    let mut d = start(&mut w, live());
    w.send(&mut d, Event::Lid(true));
    assert_eq!(d.ctx.inputs.state, State::Countdown);
    assert!(w.timer);
    w.send(&mut d, Event::ConfigReloaded);
    assert!(w.did("ProbeGraceTimer"));
    assert!(!w.did("RestartGraceTimer"));
    assert!(!w.did("CancelGraceTimer"));
    // A timer that is gone is started again.
    w.timer = false;
    w.send(&mut d, Event::ConfigReloaded);
    assert!(w.did("RestartGraceTimer"));
}

#[test]
fn a_second_policy_check_does_nothing() {
    for powerd in [true, false] {
        let mut w = World::new();
        w.powerd = powerd;
        w.brightness = Some(200);
        let mut d = start(&mut w, live());
        d.ctx.backlight.dev = Some("amdgpu_bl1".to_string());
        d.ctx.backlight.max = 255;
        // An override from the charger, and a machine that runs on its battery since.
        d.ctx.power.powerd_available = true;
        d.ctx.power.manual = Some(PowerProfile::Performance);
        d.ctx.power.manual_base = Some(BaseState::Ac);
        d.ctx.power.applied = Some(PowerProfile::Performance);
        d.ctx.power.last_base = Some(BaseState::Ac);
        d.ctx.power.on_ac_settled = false;
        w.log.clear();
        d.todo = vec![Task::Power(PowerTask::Begin)];
        w.settle(&mut d);
        assert!(w.did("RemoveOverride"));
        assert!(w.did("ApplyPower(PowerSaver)"));
        assert!(w.log.iter().any(|l| l.starts_with("SetBrightness")));
        assert_eq!(d.ctx.power.manual, None);
        assert_eq!(d.ctx.power.powerd_available, powerd);
        let (power, light) = (d.ctx.power, format!("{:?}", d.ctx.backlight));
        w.log.clear();
        d.todo = vec![Task::Power(PowerTask::Begin)];
        w.settle(&mut d);
        assert!(w.log.is_empty(), "{:?}", w.log);
        assert_eq!(d.ctx.power, power);
        assert_eq!(format!("{:?}", d.ctx.backlight), light);
    }
}
