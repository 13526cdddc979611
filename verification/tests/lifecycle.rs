//! When the agent goes to work, and what it does about what it learns.

use openlogi::agent::lifecycle::{
    apply_watcher, begin_action_ring, gate, gate_step, ClientKind, Directive, GateEvent, GateStep,
    restarts_after_prompt, HookChange, HookState, RingStep, Watcher, WatcherEvent,
};
use openlogi::agent::startup::{recovery_spec, recovery_step, RecoveryStep, TouchpadRecoveryTarget};
use openlogi::device::DeviceRoute;

#[test]
fn an_agent_waits_only_where_a_login_started_it_unasked() {
    assert_eq!(gate(true, false), GateStep::Wait);
    assert_eq!(gate(true, true), GateStep::Arm);
    assert_eq!(gate(false, false), GateStep::Arm);
    assert_eq!(gate_step(GateEvent::Client(ClientKind::Gui)), GateStep::Arm);
    assert_eq!(gate_step(GateEvent::Client(ClientKind::Diagnostic)), GateStep::Arm);
    assert_eq!(gate_step(GateEvent::Client(ClientKind::Overlay)), GateStep::Wait);
    assert_eq!(gate_step(GateEvent::Deadline), GateStep::Leave);
    assert_eq!(gate_step(GateEvent::Shutdown), GateStep::Leave);
    assert_eq!(gate_step(GateEvent::Uninstalled), GateStep::Leave);
}

#[test]
fn the_hook_follows_the_permission() {
    let mut hook = HookState {
        accessibility_granted: false,
        installed: false,
        capture_mouse_events: true,
    };
    assert!(hook.prompts());
    assert_eq!(
        hook.on_accessibility(true),
        HookChange {
            stop: false,
            start: true
        }
    );
    hook.apply_accessibility(true, false);
    assert!(!hook.installed, "it could not be put there");
    hook.apply_accessibility(true, true);
    assert!(hook.installed && !hook.prompts());
    assert_eq!(
        hook.on_accessibility(true),
        HookChange {
            stop: false,
            start: false
        }
    );
    hook.apply_accessibility(false, true);
    assert!(!hook.installed);

    hook.capture_mouse_events = false;
    hook.apply_accessibility(true, true);
    assert!(!hook.installed, "the user does not want it");
}

#[test]
fn watchers_and_what_is_done_about_them() {
    assert_eq!(
        apply_watcher(WatcherEvent::Inventory { resumed: true }),
        Directive::Refresh { restore: true }
    );
    assert_eq!(
        apply_watcher(WatcherEvent::Lost(Watcher::Inventory)),
        Directive::MarkInventoryUnavailable
    );
    assert_eq!(apply_watcher(WatcherEvent::Lost(Watcher::Camera)), Directive::Ignore);
    assert_eq!(apply_watcher(WatcherEvent::SystemWake), Directive::RestoreAtNextRefresh);
    assert_eq!(
        apply_watcher(WatcherEvent::Foreground { changed: true }),
        Directive::CancelButtons
    );
    assert_eq!(
        apply_watcher(WatcherEvent::Foreground { changed: false }),
        Directive::Ignore
    );
}

#[test]
fn a_second_press_closes_the_ring() {
    assert_eq!(begin_action_ring(true, true), RingStep::Closed);
    assert_eq!(begin_action_ring(false, true), RingStep::ArmAndOpen);
    assert_eq!(begin_action_ring(false, false), RingStep::Nothing);
}

#[test]
fn what_keeps_touchpads_from_being_put_back() {
    assert_eq!(recovery_step(None, true, true), RecoveryStep::JournalUnavailable);
    assert_eq!(recovery_step(Some(0), false, false), RecoveryStep::NothingPending);
    assert_eq!(recovery_step(Some(1), false, true), RecoveryStep::AccessMissing);
    assert_eq!(recovery_step(Some(1), true, false), RecoveryStep::ReceiverBusy);
    assert_eq!(recovery_step(Some(1), true, true), RecoveryStep::Recover);
    let spec = recovery_spec(&TouchpadRecoveryTarget {
        route: DeviceRoute::Direct {
            vendor_id: 0x046d,
            product_id: 0xb123,
        },
        journal_id: "serial:casa-1".to_string(),
    });
    assert!(!spec.capture_touchpad && spec.divert_buttons.is_empty());
    assert_eq!(spec.touchpad_journal_id.as_deref(), Some("serial:casa-1"));
}

#[test]
fn a_fresh_permission_starts_the_agent_over() {
    assert!(restarts_after_prompt(false, Some(true)));
    assert!(!restarts_after_prompt(false, Some(false)));
    assert!(!restarts_after_prompt(false, None));
    assert!(!restarts_after_prompt(true, Some(true)));
}
