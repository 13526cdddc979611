//! What a device is captured for.

use openlogi::agent::capture_plan::{
    plan_for_device, plan_for_device_with_touchpad, touchpad_recovery_plan, CaptureSessionMode,
    GESTURE_BUTTON_CID, HAPTIC_PANEL_CID,
};
use openlogi::binding::action::Action;
use openlogi::binding::button::ButtonId;
use openlogi::binding::shape::{default_binding, Binding, LongPressBinding};
use openlogi::config::Config;
use openlogi::device::DeviceRoute;

fn route() -> DeviceRoute {
    DeviceRoute::Bolt {
        receiver_uid: "cafe".to_string(),
        slot: 2,
    }
}

#[test]
fn both_hidpp_sources_gesture_when_both_are_in_gesture_mode() {
    // On MX Master 4 the dedicated button and the haptic panel can gesture
    // at the same time: the plan arms a raw-XY divert for each and keeps
    // both out of the plain-divert list.
    let mut cfg = Config::default();
    cfg.set_gesture_mode("2b042", ButtonId::GestureButton, true);
    cfg.set_gesture_mode("2b042", ButtonId::HapticPanel, true);

    let plan = plan_for_device(&cfg, "2b042", route(), None, 0);
    assert!(
        plan.gesture_bindings.contains_key(&ButtonId::GestureButton)
            && plan.gesture_bindings.contains_key(&ButtonId::HapticPanel),
        "both sources need their own dispatch map, got: {:?}",
        plan.gesture_bindings
    );
    assert!(
        !plan
            .divert_buttons
            .iter()
            .any(|&(cid, _)| cid == GESTURE_BUTTON_CID || cid == HAPTIC_PANEL_CID),
        "a raw-XY-diverted source must never also be plain-diverted"
    );
}

#[test]
fn bound_wheel_tilt_is_diverted_but_an_untouched_one_stays_native() {
    // The main wheel's tilt scrolls horizontally in firmware, so the
    // default binding must leave it native — diverting an untouched tilt
    // would silently kill horizontal scrolling. Binding one side to a real
    // action is what arms its `0x1b04` divert.
    let mut cfg = Config::default();
    cfg.set_binding(
        "2b01a",
        ButtonId::WheelTiltLeft,
        Binding::Single(Action::PrevTab),
    );

    let plan = plan_for_device(&cfg, "2b01a", route(), None, 0);
    assert!(
        plan.divert_buttons
            .contains(&(0x005b, ButtonId::WheelTiltLeft)),
        "a bound tilt must be diverted, or the binding can never fire: {:?}",
        plan.divert_buttons
    );
    assert!(
        !plan
            .divert_buttons
            .iter()
            .any(|&(_, button)| button == ButtonId::WheelTiltRight),
        "the untouched right tilt must keep its native horizontal scroll"
    );
}

#[test]
fn long_press_is_diverted_even_when_its_short_action_matches_the_native_default() {
    let mut cfg = Config::default();
    cfg.set_binding(
        "2b01a",
        ButtonId::Back,
        Binding::LongPress(LongPressBinding::new(
            default_binding(ButtonId::Back),
            Action::MissionControl,
        )),
    );

    let plan = plan_for_device(&cfg, "2b01a", route(), None, 0);
    assert!(
        plan.divert_buttons
            .iter()
            .any(|&(_, button)| button == ButtonId::Back),
        "the runtime needs both edges even when the short action is native"
    );
}

#[test]
fn haptic_panel_gestures_when_promoted() {
    // The MX Master 4 haptic panel is a HID++ gesture source: promoting it
    // into gesture mode must arm the raw-XY gesture divert, exactly like
    // the dedicated gesture button.
    let mut cfg = Config::default();
    cfg.set_gesture_mode("2b042", ButtonId::HapticPanel, true);

    let plan = plan_for_device(&cfg, "2b042", route(), None, 0);
    assert!(
        plan.gesture_bindings.contains_key(&ButtonId::HapticPanel),
        "a gesture-mode panel must arm the HID++ gesture divert"
    );
    assert!(
        !plan
            .divert_buttons
            .iter()
            .any(|&(cid, _)| cid == HAPTIC_PANEL_CID),
        "a gesture-mode source is delivered via raw-XY divert, never a plain one"
    );
}

#[test]
fn single_bound_haptic_panel_is_plain_diverted_when_not_in_gesture_mode() {
    // While only the dedicated button gestures (the default), a single
    // action bound to the panel is deliverable only via a plain HID++
    // divert dispatching ButtonId::HapticPanel.
    let mut cfg = Config::default();
    cfg.set_binding(
        "2b042",
        ButtonId::HapticPanel,
        Binding::Single(Action::Copy),
    );

    let plan = plan_for_device(&cfg, "2b042", route(), None, 0);
    assert!(
        plan.divert_buttons
            .contains(&(HAPTIC_PANEL_CID, ButtonId::HapticPanel)),
        "a single-bound panel must be plain-diverted, or the binding can never fire"
    );
}

#[test]
fn haptic_panel_default_is_diverted_for_actions_ring() {
    // Default binding is ShowActionsRing — the panel has no native OS path
    // and must be HID++-diverted so the ring can open.
    let plan = plan_for_device(&Config::default(), "2b042", route(), None, 0);

    assert!(
        plan.divert_buttons
            .contains(&(HAPTIC_PANEL_CID, ButtonId::HapticPanel)),
        "the panel's default Actions Ring binding must be HID++-diverted"
    );
}

#[test]
fn explicit_none_haptic_panel_stays_native() {
    // Action::DoNothing means leave firmware haptics alone — do not divert.
    let mut cfg = Config::default();
    cfg.set_binding(
        "2b042",
        ButtonId::HapticPanel,
        Binding::Single(Action::DoNothing),
    );

    let plan = plan_for_device(&cfg, "2b042", route(), None, 0);
    assert!(
        !plan
            .divert_buttons
            .iter()
            .any(|&(cid, _)| cid == HAPTIC_PANEL_CID),
        "an explicitly unbound panel must keep its native behavior"
    );
}

#[test]
fn gestures_off_single_bound_gesture_button_is_plain_diverted() {
    // The dedicated gesture button (CID 0x00c3) never reaches the OS hook,
    // so with gestures off a non-default single binding on it is only
    // deliverable via a plain HID++ divert.
    let mut cfg = Config::default();
    cfg.set_binding(
        "2b042",
        ButtonId::GestureButton,
        Binding::Single(Action::CycleDpiPresets),
    );

    let plan = plan_for_device(&cfg, "2b042", route(), None, 0);
    assert!(
        plan.gesture_bindings.is_empty(),
        "gestures are off — no raw-XY gesture divert"
    );
    assert!(
        plan.divert_buttons
            .contains(&(GESTURE_BUTTON_CID, ButtonId::GestureButton)),
        "a single-bound gesture button must be plain-diverted, or the binding can never fire"
    );
}

#[test]
fn gesture_mode_button_is_never_plain_diverted() {
    // While the gesture button is in gesture mode, the raw-XY gesture
    // divert owns CID 0x00c3 — a plain divert on top would strip raw-XY.
    // (Its default Click projects to a non-default single action, so only
    // the gesture-mode rule keeps it out of the plain list.)
    let mut cfg = Config::default();
    cfg.set_gesture_mode("2b042", ButtonId::GestureButton, true);

    let plan = plan_for_device(&cfg, "2b042", route(), None, 0);
    assert!(
        !plan.gesture_bindings.is_empty(),
        "the gesture button owns the gesture role"
    );
    assert!(
        !plan
            .divert_buttons
            .iter()
            .any(|&(cid, _)| cid == GESTURE_BUTTON_CID),
        "the gesture owner is delivered via raw-XY divert, never a plain one"
    );
}

#[test]
fn gestures_off_default_gesture_button_stays_native() {
    // With gestures off and no explicit binding, the gesture button keeps
    // its native HID behavior — same contract as the standard buttons.
    let mut cfg = Config::default();
    cfg.set_gesture_mode("2b042", ButtonId::GestureButton, false);

    let plan = plan_for_device(&cfg, "2b042", route(), None, 0);
    assert!(
        !plan
            .divert_buttons
            .iter()
            .any(|&(cid, _)| cid == GESTURE_BUTTON_CID),
        "an unbound gesture button must not be captured"
    );
}

#[test]
fn touchpad_capture_requires_both_opt_in_and_a_stable_probed_identity() {
    let mut cfg = Config::default();
    cfg.set_touchpad_gestures_enabled("unit:12345678", true);

    let unsupported = plan_for_device(&cfg, "unit:12345678", route(), None, 0);
    assert!(!unsupported.capture_touchpad);

    let supported = plan_for_device_with_touchpad(
        &cfg,
        "unit:12345678",
        route(),
        None,
        Some("unit:12345678".to_string()),
        0,
    );
    assert!(supported.capture_touchpad);
    assert_eq!(
        supported.touchpad_journal_id.as_deref(),
        Some("unit:12345678")
    );
}

#[test]
fn disabled_touchpad_recovery_plan_captures_no_controls() {
    let plan = touchpad_recovery_plan("unit:12345678", route(), "unit:12345678".to_string(), 7);

    assert_eq!(plan.session_mode, CaptureSessionMode::TouchpadRecovery);
    assert!(plan.bindings.is_empty());
    assert!(plan.gesture_bindings.is_empty());
    assert!(plan.divert_buttons.is_empty());
    assert!(!plan.thumbwheel_bindings_nondefault);
    assert!(plan.touchpad_bindings.is_empty());
    assert!(!plan.capture_touchpad);
}
