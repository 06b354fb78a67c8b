//! What each event leads to, and what the daemon sets out with.
use vstd::prelude::*;

use crate::ctx::CtxView;
use crate::dispatcher;
use crate::dispatcher::DispatcherView;
use crate::effectors::{Cmd, Topic};
use crate::event::Event;
use crate::fsm::{EventKind, State};
use crate::laws::events;
use crate::laws::states;
use crate::main_flow::Mode;
use crate::power;
use crate::tasks::{
    Action, BatteryTask, Cause, Entry, GpuTask, LightTask, MainTask, NoteKind, PowerTask,
    ProfileTask, ReconcileTask, TodoView,
};
use crate::text;

verus! {

/// The machine looks at its inputs for a kind of event.
pub open spec fn look(kind: EventKind) -> TodoView {
    TodoView::Main(MainTask::Evaluate(kind))
}

/// GPU advice is looked into.
pub open spec fn advise(kind: EventKind) -> TodoView {
    TodoView::Gpu(GpuTask::Gate(Cause::Event(kind)))
}

/// Power policy is checked, and observers hear of it.
pub open spec fn govern(kind: EventKind) -> Seq<TodoView> {
    seq![
        TodoView::Power(PowerTask::Begin),
        TodoView::Note(NoteKind::Ctx, Cause::Event(kind)),
    ]
}

/// Events that report an input lead to a look of the main machine, and to nothing else.
/// An open lid is no closed one, and a claim that is taken is none that is given back.
pub proof fn reports_lead_to_a_look(d: DispatcherView, now: int, flag: bool, wayland: bool)
    ensures
        d.ctx.inputs.lid_present ==> dispatcher::receiving(d, now, Event::Lid(flag)).todo == seq![
            look(
                if flag {
                    EventKind::LidClose
                } else {
                    EventKind::LidOpen
                },
            ),
        ],
        dispatcher::receiving(d, now, Event::Inhibitor { wayland, active: flag }).todo == seq![
            look(
                if flag {
                    EventKind::InhibitorOn
                } else {
                    EventKind::InhibitorOff
                },
            ),
        ],
        dispatcher::receiving(d, now, Event::LockChanged(flag)).todo == seq![
            look(
                if flag {
                    EventKind::LockEngaged
                } else {
                    EventKind::LockReleased
                },
            ),
        ],
{
    if d.ctx.inputs.lid_present {
        assert(dispatcher::receiving(d, now, Event::Lid(flag)).todo =~= seq![
            look(Event::Lid(flag).as_kind()),
        ]);
    }
    let inhibitor = Event::Inhibitor { wayland, active: flag };
    assert(dispatcher::receiving(d, now, inhibitor).todo =~= seq![look(inhibitor.as_kind())]);
    let lock = Event::LockChanged(flag);
    assert(dispatcher::receiving(d, now, lock).todo =~= seq![look(lock.as_kind())]);
}

/// A request, as it comes and goes, leads to a look of the main machine.
pub proof fn requests_lead_to_a_look(d: DispatcherView, now: int, word: Option<String>)
    ensures
        dispatcher::receiving(d, now, Event::SuspendRequestChanged(word)).todo == seq![
            look(EventKind::SuspendRequestChanged),
        ],
{
    assert(dispatcher::receiving(d, now, Event::SuspendRequestChanged(word)).todo =~= seq![
        look(EventKind::SuspendRequestChanged),
    ]);
}

/// A monitor that comes or goes is counted, and a choice of profile is put off until the
/// monitors have settled; then the main machine looks.
pub proof fn monitors_are_counted(d: DispatcherView, now: int, added: bool, name: String)
    ensures
        dispatcher::receiving(d, now, Event::MonitorHotplug { added, name }).todo == seq![
            TodoView::Main(MainTask::CountMonitors),
            TodoView::Emit(Action::RestartProfileDebounce),
            look(
                if added {
                    EventKind::MonitorAdded
                } else {
                    EventKind::MonitorRemoved
                },
            ),
        ],
{
    let ev = Event::MonitorHotplug { added, name };
    assert(dispatcher::receiving(d, now, ev).todo =~= seq![
        TodoView::Main(MainTask::CountMonitors),
        TodoView::Emit(Action::RestartProfileDebounce),
        look(ev.as_kind()),
    ]);
}

/// The charger leads to a check of the battery, waits until it has settled, leads to GPU
/// advice and a look. Once it has settled, the battery and power policy are looked at.
pub proof fn chargers_lead_to_their_checks(d: DispatcherView, now: int, on_ac: bool)
    ensures
        ({
            let kind = if on_ac {
                EventKind::AcPlugged
            } else {
                EventKind::AcUnplugged
            };
            &&& dispatcher::receiving(d, now, Event::AcChanged(on_ac)).todo == seq![
                TodoView::Battery(BatteryTask::Check { gate: None }),
                TodoView::Emit(Action::RestartPowerSettle),
                advise(kind),
                look(kind),
            ]
            &&& dispatcher::receiving(d, now, Event::PowerAcSettled).todo == seq![
                TodoView::Battery(BatteryTask::Check { gate: None }),
            ] + govern(EventKind::PowerAcSettled) + seq![look(EventKind::PowerAcSettled)]
            &&& dispatcher::receiving(d, now, Event::PowerdAppeared).todo == govern(
                EventKind::PowerAcSettled,
            ) + seq![look(EventKind::PowerAcSettled)]
        }),
{
    let ev = Event::AcChanged(on_ac);
    assert(dispatcher::receiving(d, now, ev).todo =~= seq![
        TodoView::Battery(BatteryTask::Check { gate: None }),
        TodoView::Emit(Action::RestartPowerSettle),
        advise(ev.as_kind()),
        look(ev.as_kind()),
    ]);
    assert(dispatcher::receiving(d, now, Event::PowerAcSettled).todo =~= seq![
        TodoView::Battery(BatteryTask::Check { gate: None }),
    ] + govern(EventKind::PowerAcSettled) + seq![look(EventKind::PowerAcSettled)]);
    assert(dispatcher::receiving(d, now, Event::PowerdAppeared).todo =~= govern(
        EventKind::PowerAcSettled,
    ) + seq![look(EventKind::PowerAcSettled)]);
}

/// A sample of the battery leads to a check that knows whether the flag flipped, then to
/// power policy and a look. A changed override file leads to the same without a check.
pub proof fn samples_and_overrides_lead_to_policy(
    d: DispatcherView,
    now: int,
    pct: power::Percent,
    word: Option<String>,
)
    ensures
        ({
            let e = dispatcher::receiving(d, now, Event::BatteryPercent(pct));
            let flipped = e.ctx.power.low_battery != d.ctx.power.low_battery;
            let low = EventKind::BatteryLowChanged;
            let over = EventKind::PowerOverrideChanged;
            &&& e.todo == seq![
                TodoView::Battery(BatteryTask::Check { gate: Some(flipped) }),
            ] + govern(low) + seq![look(low)]
            &&& dispatcher::receiving(d, now, Event::PowerOverrideChanged(word)).todo == govern(
                over,
            ) + seq![look(over)]
            &&& dispatcher::receiving(d, now, Event::GpuOverrideChanged(word)).todo == seq![
                advise(EventKind::GpuOverrideChanged),
                look(EventKind::GpuOverrideChanged),
            ]
        }),
{
    let e = dispatcher::receiving(d, now, Event::BatteryPercent(pct));
    let flipped = e.ctx.power.low_battery != d.ctx.power.low_battery;
    let low = EventKind::BatteryLowChanged;
    let over = EventKind::PowerOverrideChanged;
    assert(e.todo =~= seq![
        TodoView::Battery(BatteryTask::Check { gate: Some(flipped) }),
    ] + govern(low) + seq![look(low)]);
    assert(dispatcher::receiving(d, now, Event::PowerOverrideChanged(word)).todo =~= govern(over)
        + seq![look(over)]);
    assert(dispatcher::receiving(d, now, Event::GpuOverrideChanged(word)).todo =~= seq![
        advise(EventKind::GpuOverrideChanged),
        look(EventKind::GpuOverrideChanged),
    ]);
}

/// A change of the platform profile that was adopted is written to the override file, told
/// and governed by; one of the daemon's own leads to none of that. Either leads to GPU
/// advice and a look.
pub proof fn adopted_changes_are_kept(d: DispatcherView, now: int, value: Option<String>)
    ensures
        ({
            let e = dispatcher::receiving(d, now, Event::PlatformProfileChanged(value));
            let kind = EventKind::PlatformProfileChanged;
            let own = power::self_write_of(d.ctx.self_writes, now, text::opt_string(value)).0;
            let rest = seq![advise(kind), look(kind)];
            let p = e.ctx.power.manual->0;
            let told = seq![
                TodoView::Emit(
                    states::as_told(
                        d.mode,
                        Cmd::Notify {
                            topic: Topic::Power,
                            body: "Adopted external power change as override: "@ + p.word(),
                        },
                    ),
                ),
                TodoView::Power(PowerTask::Begin),
            ];
            &&& own ==> e.todo == rest && e.ctx.power == d.ctx.power
            &&& !own && d.mode.shadow ==> e.todo == told + rest
            &&& !own && !d.mode.shadow ==> e.todo == seq![
                TodoView::Emit(Action::WriteOverride(p)),
            ] + told + rest
            &&& !own ==> e.ctx.power.manual is Some
        }),
{
    let e = dispatcher::receiving(d, now, Event::PlatformProfileChanged(value));
    let kind = EventKind::PlatformProfileChanged;
    let own = power::self_write_of(d.ctx.self_writes, now, text::opt_string(value)).0;
    let rest = seq![advise(kind), look(kind)];
    let p = e.ctx.power.manual->0;
    let told = seq![
        TodoView::Emit(
            states::as_told(
                d.mode,
                Cmd::Notify {
                    topic: Topic::Power,
                    body: "Adopted external power change as override: "@ + p.word(),
                },
            ),
        ),
        TodoView::Power(PowerTask::Begin),
    ];
    if own {
        assert(e.todo =~= rest);
    } else if d.mode.shadow {
        assert(e.todo =~= told + rest);
    } else {
        assert(e.todo =~= seq![TodoView::Emit(Action::WriteOverride(p))] + told + rest);
    }
}

/// An expired timer probes a request that stands before the machine looks. Waking up
/// removes the request file, rearms the brightness, and then the machine looks.
pub proof fn timers_and_resumes_lead_to_a_look(d: DispatcherView, now: int)
    ensures
        dispatcher::receiving(d, now, Event::TimerExpired).todo == (if d.ctx.inputs.suspend_requested {
            seq![TodoView::Main(MainTask::TimerProbe)]
        } else {
            seq![]
        }) + seq![look(EventKind::TimerExpired)],
        dispatcher::receiving(d, now, Event::Resumed).todo == (if d.mode.shadow {
            seq![]
        } else {
            seq![TodoView::Emit(Action::ClearSuspendRequest)]
        }) + seq![TodoView::Light(LightTask::Rearm), look(EventKind::Resumed)],
{
    assert(dispatcher::receiving(d, now, Event::TimerExpired).todo =~= (
    if d.ctx.inputs.suspend_requested {
        seq![TodoView::Main(MainTask::TimerProbe)]
    } else {
        seq![]
    }) + seq![look(EventKind::TimerExpired)]);
    assert(dispatcher::receiving(d, now, Event::Resumed).todo =~= (if d.mode.shadow {
        seq![]
    } else {
        seq![TodoView::Emit(Action::ClearSuspendRequest)]
    }) + seq![TodoView::Light(LightTask::Rearm), look(EventKind::Resumed)]);
}

/// Events beside the main machine: a reload takes the active profile in and asserts the
/// state again, unless the machine is suspending; settled monitors lead to a choice of
/// profile; changed profiles wait for more changes; a tick leads to a pass of the
/// reconciler.
pub proof fn other_events_lead_elsewhere(
    d: DispatcherView,
    now: int,
    snap: crate::event::ReconcileSnapshot,
)
    ensures
        dispatcher::receiving(d, now, Event::ConfigReloaded).todo == (if d.ctx.inputs.state
            == State::Suspending {
            seq![]
        } else {
            seq![
                TodoView::Profile(ProfileTask::Ingest),
                TodoView::Main(MainTask::Enter(Entry::Reassert)),
            ]
        }),
        dispatcher::receiving(d, now, Event::MonitorsChanged).todo == seq![
            TodoView::Profile(ProfileTask::Choose),
        ],
        dispatcher::receiving(d, now, Event::ProfilesChanged).todo == seq![
            TodoView::Emit(Action::RestartProfileDebounce),
        ],
        dispatcher::receiving(d, now, Event::ReconcileTick(snap)).todo == seq![
            TodoView::Reconcile(ReconcileTask::Begin(snap)),
        ],
{
    assert(dispatcher::receiving(d, now, Event::ConfigReloaded).todo =~= (if d.ctx.inputs.state
        == State::Suspending {
        seq![]
    } else {
        seq![
            TodoView::Profile(ProfileTask::Ingest),
            TodoView::Main(MainTask::Enter(Entry::Reassert)),
        ]
    }));
    assert(dispatcher::receiving(d, now, Event::MonitorsChanged).todo =~= seq![
        TodoView::Profile(ProfileTask::Choose),
    ]);
    assert(dispatcher::receiving(d, now, Event::ProfilesChanged).todo =~= seq![
        TodoView::Emit(Action::RestartProfileDebounce),
    ]);
    assert(dispatcher::receiving(d, now, Event::ReconcileTick(snap)).todo =~= seq![
        TodoView::Reconcile(ReconcileTask::Begin(snap)),
    ]);
}

/// The daemon starts in the state that its inputs call for, without a request from before;
/// a request file is removed first, unless it only watches, and the GPU pin comes last.
pub proof fn the_daemon_starts_in_the_right_state(c: CtxView, m: Mode)
    ensures
        ({
            let d = dispatcher::starting(c, m);
            &&& !d.ctx.inputs.suspend_requested
            &&& events::right_state(d.ctx, d.ctx.inputs.state)
            &&& d.ctx.inputs.lid_closed == c.inputs.lid_closed
            &&& d.ctx.inputs.ext_mon_count == c.inputs.ext_mon_count
            &&& d.ctx.power == c.power && d.ctx.profile == c.profile
            &&& d.mode == m
            &&& !m.shadow ==> d.todo[0] == TodoView::Emit(Action::ClearSuspendRequest)
            &&& d.todo.last() == TodoView::Gpu(GpuTask::Gate(Cause::Startup))
        }),
{
}

} // verus!
