//! Capture sessions and their plans.

use openlogi::agent::capture::{
    accepts_input, on_done, session_matches_plan, spec_for, wanted_sessions, CaptureManager,
    DoneReport, JournalState, RunningSession, SessionDone, SessionError, SessionTarget,
};
use openlogi::agent::capture_plan::{
    plan_for_device, plan_for_device_with_touchpad, touchpad_recovery_plan, CaptureSessionMode,
};
use openlogi::agent::dispatch::Command;
use openlogi::agent::input::CapturedInput;
use openlogi::agent::monitor::TouchpadMonitor;
use openlogi::agent::session::{DoneAction, HidppSessionId};
use openlogi::binding::action::Action;
use openlogi::binding::button::ButtonId;
use openlogi::binding::shape::Binding;
use openlogi::config::settings::ThumbwheelSensitivity;
use openlogi::config::Config;
use openlogi::device::DeviceRoute;
use openlogi::ordered::OrderedMap;

fn route() -> DeviceRoute {
    DeviceRoute::Direct {
        vendor_id: 0x046d,
        product_id: 0xc548,
    }
}

fn session_id(epoch: u64) -> HidppSessionId {
    HidppSessionId::with_epoch("mouse-a", epoch)
}

fn stopped_session_with_epoch(epoch: u64) -> RunningSession {
    let plan = plan_for_device(
        &Config::default(),
        "mouse-a",
        route(),
        None,
        0,
    );
    RunningSession {
        id: session_id(epoch),
        target: SessionTarget::for_plan(&plan, false),
        running: false,
    }
}

fn live_session_with_epoch(epoch: u64) -> RunningSession {
    RunningSession {
        running: true,
        ..stopped_session_with_epoch(epoch)
    }
}

#[test]
fn tests_rearms_when_the_current_session_dies() {
    assert_eq!(
        on_done(&session_id(7), Some(&live_session_with_epoch(7))),
        DoneAction::Remove { unexpected: true }
    );
}

#[test]
fn ignores_a_stale_session_superseded_by_a_restart() {
    assert_eq!(
        on_done(&session_id(6), Some(&live_session_with_epoch(7))),
        DoneAction::Ignore
    );
}

#[test]
fn ignores_a_completion_from_another_device_at_the_same_epoch() {
    assert_eq!(
        on_done(
            &HidppSessionId::with_epoch("mouse-b", 7),
            Some(&live_session_with_epoch(7))
        ),
        DoneAction::Ignore
    );
}

#[test]
fn ignores_a_completion_for_an_untracked_device() {
    assert_eq!(on_done(&session_id(7), None), DoneAction::Ignore);
}

#[test]
fn tests_settles_a_draining_session_quietly() {
    assert_eq!(
        on_done(&session_id(7), Some(&stopped_session_with_epoch(7))),
        DoneAction::Remove { unexpected: false }
    );
}

#[test]
fn tests_accepts_inputs_only_from_the_current_live_session() {
    assert!(accepts_input(
        &session_id(7),
        Some(&live_session_with_epoch(7))
    ));
    assert!(
        !accepts_input(&session_id(6), Some(&live_session_with_epoch(7))),
        "a superseded session's queued input is stale"
    );
    assert!(
        !accepts_input(&session_id(7), Some(&stopped_session_with_epoch(7))),
        "a draining session was already canceled"
    );
    assert!(!accepts_input(&session_id(7), None));
}

#[test]
fn rejects_input_after_the_published_capture_plan_changes() {
    let session = live_session_with_epoch(7);
    let mut plan = plan_for_device(
        &Config::default(),
        "mouse-a",
        session.target.route.clone(),
        None,
        0,
    );
    assert!(session_matches_plan(&session, &plan, false));

    plan.rearm_generation = 1;
    assert!(
        !session_matches_plan(&session, &plan, false),
        "an input queued before a capture-plan epoch change is stale"
    );
}

#[test]
fn wheel_configuration_changes_invalidate_the_capture_epoch() {
    let mut config = Config::default();
    config.set_binding(
        "mouse-a",
        ButtonId::ThumbwheelScrollUp,
        Binding::Single(Action::NextTab),
    );
    let first = plan_for_device(&config, "mouse-a", route(), None, 0);
    let mut session = live_session_with_epoch(7);
    session.target = SessionTarget::for_plan(&first, false);

    config.set_binding(
        "mouse-a",
        ButtonId::ThumbwheelScrollUp,
        Binding::Single(Action::VolumeUp),
    );
    let rebound = plan_for_device(&config, "mouse-a", route(), None, 0);
    assert_eq!(
        spec_for(&first, false),
        spec_for(&rebound, false),
        "both custom bindings require the same HID++ diversion"
    );
    assert!(
        !session_matches_plan(&session, &rebound, false),
        "binding changes must end the epoch even when the divert set is unchanged"
    );

    session.target = SessionTarget::for_plan(&rebound, false);
    config.set_device_thumbwheel_sensitivity("mouse-a", Some(ThumbwheelSensitivity { value: ThumbwheelSensitivity::MIN }));
    let rescaled = plan_for_device(&config, "mouse-a", route(), None, 0);
    assert_eq!(spec_for(&rebound, false), spec_for(&rescaled, false));
    assert!(
        !session_matches_plan(&session, &rescaled, false),
        "sensitivity changes must not reuse an old action threshold or cooldown"
    );
}

#[test]
fn diagnostics_temporarily_arm_only_raw_touchpad_plans() {
    let touchpad = plan_for_device_with_touchpad(
        &Config::default(),
        "touchpad-a",
        route(),
        None,
        Some("unit:01020304".to_string()),
        0,
    );
    let mouse = plan_for_device(
        &Config::default(),
        "mouse-a",
        route(),
        None,
        0,
    );

    assert!(!spec_for(&touchpad, false).capture_touchpad);
    assert!(spec_for(&touchpad, true).capture_touchpad);
    assert!(!spec_for(&mouse, true).capture_touchpad);
}

#[test]
fn recovery_session_is_wanted_only_while_its_journal_exists() {
    let plan = touchpad_recovery_plan(
        "touchpad-a",
        route(),
        "unit:01020304".to_string(),
        0,
    );
    let plans = vec![plan];
    let exclusive_requested = false;
    let monitor = TouchpadMonitor::default();
    let mut missing = OrderedMap::new();
    missing.insert("unit:01020304".to_string(), JournalState::Missing);
    let mut existing = OrderedMap::new();
    existing.insert("unit:01020304".to_string(), JournalState::Recorded);

    assert!(wanted_sessions(exclusive_requested, &plans, &monitor, Some(&missing)).is_empty());
    let wanted = wanted_sessions(exclusive_requested, &plans, &monitor, Some(&existing));
    assert_eq!(
        wanted.get("touchpad-a").map(|target| target.spec.mode),
        Some(CaptureSessionMode::TouchpadRecovery)
    );
}

#[test]
fn managed_touchpad_session_stays_wanted_without_a_journal_record() {
    let plan = plan_for_device_with_touchpad(
        &Config::default(),
        "touchpad-a",
        route(),
        None,
        Some("unit:01020304".to_string()),
        0,
    );
    let plans = vec![plan];
    let exclusive_requested = false;
    let monitor = TouchpadMonitor::default();

    let wanted = wanted_sessions(exclusive_requested, &plans, &monitor, None);

    assert_eq!(
        wanted.get("touchpad-a").map(|target| target.spec.mode),
        Some(CaptureSessionMode::Continuous)
    );
}

#[test]
fn diagnostic_can_temporarily_capture_a_disabled_touchpad() {
    let plan = touchpad_recovery_plan(
        "touchpad-a",
        route(),
        "unit:01020304".to_string(),
        0,
    );
    let plans = vec![plan];
    let exclusive_requested = false;
    let mut monitor = TouchpadMonitor::default();
    monitor.poll("touchpad-a");

    let wanted = wanted_sessions(exclusive_requested, &plans, &monitor, None);

    assert_eq!(
        wanted.get("touchpad-a").map(|target| target.spec.mode),
        Some(CaptureSessionMode::TouchpadOnly)
    );
    assert!(
        wanted
            .get("touchpad-a")
            .is_some_and(|target| target.spec.capture_touchpad)
    );
}

#[test]
fn a_manager_starts_what_is_wanted_and_stops_what_is_not() {
    let plans = vec![plan_for_device(&Config::default(), "mouse-a", route(), None, 0)];
    let mut monitor = TouchpadMonitor::default();
    let mut manager = CaptureManager::default();

    let tick = manager.tick(false, &plans, &mut monitor, None, false);
    assert!(tick.start.is_empty(), "the receivers are in use");
    let tick = manager.tick(false, &plans, &mut monitor, None, true);
    assert_eq!(tick.start.len(), 1);
    let id = HidppSessionId::with_epoch(tick.start[0].id.device_key(), tick.start[0].id.epoch());
    assert_eq!(id.device_key(), "mouse-a");
    let tick = manager.tick(false, &plans, &mut monitor, None, true);
    assert!(tick.start.is_empty() && tick.stop.is_empty(), "it runs already");

    let down = CapturedInput::ButtonDown(ButtonId::Back);
    assert!(matches!(
        manager.handle_captured_event(&id, &down, false, &plans, &mut monitor),
        Command::ButtonDown { .. }
    ));

    let tick = manager.tick(true, &plans, &mut monitor, None, true);
    assert_eq!(tick.stop, vec![HidppSessionId::with_epoch("mouse-a", id.epoch())]);
    assert!(tick.start.is_empty());
    assert_eq!(
        manager.handle_captured_event(&id, &down, false, &plans, &mut monitor),
        Command::Cancel {
            session: HidppSessionId::with_epoch("mouse-a", id.epoch())
        },
        "a session that was told to stop is not listened to"
    );
    let done = SessionDone {
        session: id,
        error: None,
    };
    assert_eq!(manager.handle_session_done(&done, &mut monitor), DoneReport::Settled);
    assert_eq!(manager.handle_session_done(&done, &mut monitor), DoneReport::Stale);

    let tick = manager.tick(false, &plans, &mut monitor, None, true);
    assert_eq!(tick.start.len(), 1);
    assert_ne!(tick.start[0].id.epoch(), done.session.epoch());
}

#[test]
fn a_session_that_dies_begins_anew_unless_it_met_a_conflict() {
    let plans = vec![plan_for_device(&Config::default(), "mouse-a", route(), None, 0)];
    let mut monitor = TouchpadMonitor::default();
    let mut manager = CaptureManager::default();
    let begin = |manager: &mut CaptureManager, monitor: &mut TouchpadMonitor, plans: &Vec<_>| {
        manager
            .tick(false, plans, monitor, None, true)
            .start
            .into_iter()
            .map(|start| start.id)
            .next()
    };

    let first = begin(&mut manager, &mut monitor, &plans).expect("it starts");
    assert_eq!(
        manager.handle_session_done(
            &SessionDone {
                session: first,
                error: Some(SessionError::Other),
            },
            &mut monitor
        ),
        DoneReport::Unexpected
    );
    let second = begin(&mut manager, &mut monitor, &plans).expect("it starts again");
    assert_eq!(
        manager.handle_session_done(
            &SessionDone {
                session: second,
                error: Some(SessionError::TouchpadRawModeConflict {
                    expected: 5,
                    actual: 0,
                }),
            },
            &mut monitor
        ),
        DoneReport::Conflict {
            expected: 5,
            actual: 0
        }
    );
    assert_eq!(monitor.poll("mouse-a").conflicts.len(), 1);
    assert_eq!(begin(&mut manager, &mut monitor, &plans), None, "another program has it");

    let changed = vec![plan_for_device(&Config::default(), "mouse-a", route(), None, 1)];
    assert!(begin(&mut manager, &mut monitor, &changed).is_some());
    assert!(monitor.poll("mouse-a").conflicts.is_empty());
}
