//! Buttons, actions and what they come to.

use openlogi::binding::action::{Action, Category, WorkflowStep};
use openlogi::binding::button::ButtonId;
use openlogi::binding::effect::{Effect, Script};
use openlogi::binding::key_combo::{ApplicationTarget, KeyCombo};
use openlogi::binding::ring::{RingAction, RingActionError};
use openlogi::binding::shape::default_binding;

#[test]
fn catalog_has_at_least_29_entries() {
    let catalog = Action::catalog();
    assert!(
        catalog.len() >= 29,
        "catalog has {} entries, need >= 29",
        catalog.len()
    );
}

#[test]
fn catalog_excludes_custom_shortcut() {
    let catalog = Action::catalog();
    for action in &catalog {
        assert!(
            !matches!(action, Action::CustomShortcut(_) | Action::HoldShortcut(_)),
            "catalog must not contain recorded shortcut actions"
        );
    }
}

#[test]
fn hold_shortcut_has_distinct_lifecycle_semantics() {
    let combo: KeyCombo = KeyCombo::parse("Alt+Space").expect("valid shortcut failed");
    let held = Action::HoldShortcut(combo.clone());

    assert_eq!(held.label(), "Hold Alt+Space");
    assert_eq!(held.category(), Category::Editing);
    assert_eq!(held.held_combo(), Some(&combo));
    assert!(matches!(held.effect(), Effect::HeldKey(actual) if actual == &combo));
    assert_eq!(Action::CustomShortcut(combo).held_combo(), None);
}

#[test]
fn power_user_action_labels_and_category() {
    assert_eq!(Action::TypeText("hi".into()).label(), "Type \"hi\"");
    assert_eq!(
        Action::RunAppleScript("osascript".into()).label(),
        "Run AppleScript"
    );
    assert_eq!(
        Action::RunShellCommand("echo hi".into()).label(),
        "Run Command"
    );
    // All three are power-user escape hatches: classed as Editing so a
    // hand-authored binding has a home group, but never in the default
    // catalog (asserted below).
    assert_eq!(Action::TypeText("x".into()).category(), Category::Editing);
    assert_eq!(
        Action::RunAppleScript("x".into()).category(),
        Category::Editing
    );
    assert_eq!(
        Action::RunShellCommand("x".into()).category(),
        Category::Editing
    );
}

#[test]
fn power_user_actions_excluded_from_catalog() {
    let cat = Action::catalog();
    assert!(cat.iter().all(|a| !matches!(
        a,
        Action::TypeText(_) | Action::RunAppleScript(_) | Action::RunShellCommand(_)
    )));
}

#[test]
fn workflow_label_category_and_catalog_exclusion() {
    let wf = Action::Workflow(vec![
        WorkflowStep::TypeText("bite me".into()),
        WorkflowStep::Delay { millis: 5000 },
        WorkflowStep::PressKey(KeyCombo::parse("Enter").expect("valid shortcut failed")),
    ]);
    assert_eq!(wf.label(), "Workflow (3 steps)");
    assert_eq!(wf.category(), Category::Editing);
    // Excluded from the default catalog like the other power-user actions.
    assert!(
        Action::catalog()
            .iter()
            .all(|a| !matches!(a, Action::Workflow(_)))
    );
}

#[test]
fn actions_ring_is_available_to_normal_and_gesture_pickers() {
    assert_eq!(Action::ShowActionsRing.label(), "Actions Ring");
    assert_eq!(Action::ShowActionsRing.category(), Category::System);
    assert!(Action::catalog().contains(&Action::ShowActionsRing));
    assert_eq!(
        RingAction::new(Action::ShowActionsRing),
        Err(RingActionError::RecursiveTrigger)
    );
}

#[test]
fn key_combo_rendered_label_is_canonical() {
    let combo: KeyCombo = KeyCombo::parse("Cmd+Shift+P").expect("valid shortcut failed");
    assert_eq!(combo.rendered_label(), "Cmd+Shift+P");
}

#[test]
fn key_combo_rendered_label_falls_back_to_modifiers_plus_key() {
    let combo: KeyCombo = KeyCombo::parse("Cmd+Shift+P").expect("valid shortcut failed");
    assert_eq!(combo.rendered_label(), "Cmd+Shift+P");
}

#[test]
fn category_editing_variants() {
    assert_eq!(Action::Copy.category(), Category::Editing);
    assert_eq!(Action::Undo.category(), Category::Editing);
    assert_eq!(Action::SelectAll.category(), Category::Editing);
    assert_eq!(Action::Find.category(), Category::Editing);
    assert_eq!(Action::Save.category(), Category::Editing);
    assert_eq!(Action::Cut.category(), Category::Editing);
    assert_eq!(Action::Redo.category(), Category::Editing);
    assert_eq!(Action::Paste.category(), Category::Editing);
}

#[test]
fn category_browser_variants() {
    assert_eq!(Action::BrowserBack.category(), Category::Browser);
    assert_eq!(Action::BrowserForward.category(), Category::Browser);
    assert_eq!(Action::NewTab.category(), Category::Browser);
    assert_eq!(Action::CloseTab.category(), Category::Browser);
    assert_eq!(Action::ReopenTab.category(), Category::Browser);
    assert_eq!(Action::NextTab.category(), Category::Browser);
    assert_eq!(Action::PrevTab.category(), Category::Browser);
    assert_eq!(Action::ReloadPage.category(), Category::Browser);
}

#[test]
fn category_media_variants() {
    assert_eq!(Action::PlayPause.category(), Category::Media);
    assert_eq!(Action::NextTrack.category(), Category::Media);
    assert_eq!(Action::PrevTrack.category(), Category::Media);
    assert_eq!(Action::VolumeUp.category(), Category::Media);
    assert_eq!(Action::VolumeDown.category(), Category::Media);
    assert_eq!(Action::MuteVolume.category(), Category::Media);
}

#[test]
fn category_mouse_variants() {
    assert_eq!(Action::LeftClick.category(), Category::Mouse);
    assert_eq!(Action::RightClick.category(), Category::Mouse);
    assert_eq!(Action::MiddleClick.category(), Category::Mouse);
}

#[test]
fn category_dpi_variants() {
    assert_eq!(Action::CycleDpiPresets.category(), Category::Dpi);
    assert_eq!(Action::ToggleSmartShift.category(), Category::Dpi);
}

#[test]
fn category_scroll_variants() {
    assert_eq!(Action::ScrollUp.category(), Category::Scroll);
    assert_eq!(Action::ScrollDown.category(), Category::Scroll);
    assert_eq!(Action::HorizontalScrollLeft.category(), Category::Scroll);
    assert_eq!(Action::HorizontalScrollRight.category(), Category::Scroll);
}

#[test]
fn category_navigation_variants() {
    assert_eq!(Action::MissionControl.category(), Category::Navigation);
    assert_eq!(Action::AppExpose.category(), Category::Navigation);
    assert_eq!(Action::PreviousDesktop.category(), Category::Navigation);
    assert_eq!(Action::NextDesktop.category(), Category::Navigation);
    assert_eq!(Action::ShowDesktop.category(), Category::Navigation);
    assert_eq!(Action::LaunchpadShow.category(), Category::Navigation);
}

#[test]
fn category_system_variants() {
    assert_eq!(Action::LockScreen.category(), Category::System);
    assert_eq!(Action::Screenshot.category(), Category::System);
}

#[test]
fn category_labels_are_nonempty() {
    let categories = [
        Category::Editing,
        Category::Browser,
        Category::Media,
        Category::Mouse,
        Category::Dpi,
        Category::Scroll,
        Category::Navigation,
        Category::System,
    ];
    for cat in categories {
        assert!(!cat.label().is_empty(), "label empty for {cat:?}");
    }
}

#[test]
fn dpi_toggle_default_is_cycle_dpi_presets() {
    assert_eq!(
        default_binding(ButtonId::DpiToggle),
        Action::CycleDpiPresets
    );
}

#[test]
fn haptic_panel_defaults_to_opening_the_actions_ring() {
    assert_eq!(
        default_binding(ButtonId::HapticPanel),
        Action::ShowActionsRing
    );
    assert!(ButtonId::ALL.contains(&ButtonId::HapticPanel));
}

#[test]
fn wheel_tilt_defaults_to_the_scroll_its_firmware_already_does() {
    // The seed has to match the native behavior on both sides: the capture
    // plan diverts a control only when its binding leaves the default, so any
    // other seed would divert an untouched tilt and kill horizontal scroll.
    assert_eq!(
        default_binding(ButtonId::WheelTiltLeft),
        Action::HorizontalScrollLeft
    );
    assert_eq!(
        default_binding(ButtonId::WheelTiltRight),
        Action::HorizontalScrollRight
    );
    for tilt in [ButtonId::WheelTiltLeft, ButtonId::WheelTiltRight] {
        assert!(ButtonId::ALL.contains(&tilt));
        // A tilt reaches the host over HID++ diversion only: the OS hook sees
        // a horizontal scroll, not a button, and it swipes nothing.
        assert!(!tilt.is_os_hook_button());
        assert!(!tilt.is_hidpp_gesture_source());
    }
}

#[test]
fn thumbwheel_defaults_match_normalised_native_direction() {
    // HID++ capture normalises the per-model firmware polarity to physical
    // forward/up. The defaults must then reproduce native horizontal scroll,
    // including when sensitivity alone causes the wheel to be diverted.
    assert_eq!(
        default_binding(ButtonId::ThumbwheelScrollUp),
        Action::HorizontalScrollLeft
    );
    assert_eq!(
        default_binding(ButtonId::ThumbwheelScrollDown),
        Action::HorizontalScrollRight
    );
}

#[test]
fn catalog_actions_lower_to_a_non_none_effect_except_none() {
    for action in Action::catalog() {
        let is_none_effect = matches!(action.effect(), Effect::Nothing);
        assert_eq!(
            is_none_effect,
            action == Action::DoNothing,
            "{action:?} effect classification disagrees with being Action::DoNothing"
        );
    }
}

#[test]
fn power_user_and_device_side_actions_lower_to_the_expected_bucket() {
    let combo: KeyCombo = KeyCombo::parse("Cmd+P")
        .expect("valid shortcut failed");
    let custom_shortcut = Action::CustomShortcut(combo);
    assert!(matches!(custom_shortcut.effect(), Effect::Key(_)));

    let hold_shortcut = Action::HoldShortcut(
        KeyCombo::parse("Ctrl+Space")
            .expect("valid shortcut failed"),
    );
    assert!(matches!(hold_shortcut.effect(), Effect::HeldKey(_)));

    let type_text = Action::TypeText("hi".into());
    assert!(matches!(type_text.effect(), Effect::Text("hi")));

    let run_apple_script = Action::RunAppleScript("beep".into());
    assert!(matches!(
        run_apple_script.effect(),
        Effect::Script(Script::AppleScript("beep"))
    ));

    let run_shell_command = Action::RunShellCommand("date".into());
    assert!(matches!(
        run_shell_command.effect(),
        Effect::Script(Script::ShellCommand("date"))
    ));

    let workflow = Action::Workflow(vec![]);
    assert!(matches!(workflow.effect(), Effect::Script(Script::Workflow(&[]))));

    // DPI/SmartShift/the Actions Ring/OpenApplication are all handled above
    // or beside the injector, never inside a backend's own dispatch.
    for action in [
        Action::CycleDpiPresets,
        Action::SetDpiPreset(2),
        Action::ToggleSmartShift,
        Action::ShowActionsRing,
    ] {
        assert!(matches!(action.effect(), Effect::AgentSide));
    }
    let target = ApplicationTarget::new("/Applications/Safari.app", "")
        .expect("valid target failed");
    assert!(matches!(Action::OpenApplication(target).effect(), Effect::AgentSide));
}

#[test]
fn scroll_actions_lower_to_unit_direction() {
    assert_eq!(Action::ScrollUp.effect(), Effect::Scroll { dx: 0, dy: 1 });
    assert_eq!(
        Action::ScrollDown.effect(),
        Effect::Scroll { dx: 0, dy: -1 }
    );
    assert_eq!(
        Action::HorizontalScrollLeft.effect(),
        Effect::Scroll { dx: -1, dy: 0 }
    );
    assert_eq!(
        Action::HorizontalScrollRight.effect(),
        Effect::Scroll { dx: 1, dy: 0 }
    );
}

#[test]
fn a_written_chord_is_read_back() {
    let combo: KeyCombo =
        KeyCombo::parse("Shift+Alt+Ctrl+Cmd+Delete").expect("valid shortcut failed");
    assert_eq!(combo.rendered_label(), "Cmd+Ctrl+Alt+Shift+Delete");
    assert_eq!(
        KeyCombo::parse(&combo.rendered_label()).expect("valid shortcut failed"),
        combo
    );
}
