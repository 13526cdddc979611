//! Settings, and what is read back of them.

use openlogi::binding::action::Action;
use openlogi::binding::button::{ButtonId, GestureDirection};
use openlogi::binding::key_combo::KeyCombo;
use openlogi::binding::ring::{ActionRingIcon, ActionRingSlot, RingAction};
use openlogi::binding::shape::{default_binding, default_gesture_binding, Binding};
use openlogi::config::device::{DeviceConfig, DeviceIdentity, LinkConfig, LinkOverrides};
use openlogi::config::key_trigger::KeyTrigger;
use openlogi::config::settings::{
    CameraControls, LightSettings, Lighting, Rgb, VerticalScrollSensitivity,
};
use openlogi::config::{Config, TouchpadTriggerError};
use openlogi::device::{Capabilities, DeviceKind, DeviceModelInfo, DeviceTransports};
use openlogi::hid::{
    Dpi, ScrollResolution, SmartShift, SmartShiftAutoDisengage, SmartShiftThreshold, TunableTorque,
    WheelMode,
};
use openlogi::ordered::OrderedMap;

/// What loading does to a copy of the settings once the file has been read.
/// Nothing is written: the file format belongs to the application.
fn copy_and_upgrade(config: &Config) -> Config {
    let mut copy = config.clone();
    copy.upgrade().expect("current schema");
    copy
}

#[test]
fn key_trigger_parses_bare_and_modified() {
    // Bare function key — F1 is macOS keycode 0x7A.
    let t: KeyTrigger = KeyTrigger::parse("f1").expect("parse key trigger");
    assert_eq!(t.keycode, 0x7A);
    assert!(t.modifiers.is_empty());

    // Modifier-qualified, in any order, with aliases.
    let t: KeyTrigger = KeyTrigger::parse("shift+cmd+f5").expect("parse key trigger");
    assert_eq!(t.keycode, 0x60); // F5
    assert!(t.modifiers.shift && t.modifiers.command);
    assert!(!t.modifiers.control && !t.modifiers.option);

    let t: KeyTrigger = KeyTrigger::parse("ctrl+alt+f2").expect("parse key trigger");
    assert!(t.modifiers.control && t.modifiers.option);

    // Esc.
    assert_eq!(
        KeyTrigger::parse("esc")
            .expect("parse key trigger")
            .keycode,
        0x35
    );
}

#[test]
fn key_trigger_parses_and_displays_extended_function_keys() {
    let f13: KeyTrigger = KeyTrigger::parse("f13").expect("parse key trigger");
    let f17: KeyTrigger = KeyTrigger::parse("command+f17").expect("parse key trigger");
    let f19: KeyTrigger = KeyTrigger::parse("f19").expect("parse key trigger");

    assert_eq!(f13.keycode, 0x69);
    assert_eq!(f17.keycode, 0x40);
    assert_eq!(f17.label(), "command+f17");
    assert_eq!(f19.keycode, 0x50);
    assert_eq!(f19.label(), "f19");
}

#[test]
fn key_trigger_rejects_unknown() {
    KeyTrigger::parse("f99")
        .expect_err("f99 is not a known key name");
    KeyTrigger::parse("shift+")
        .expect_err("a modifier with no key must be rejected");
    KeyTrigger::parse("")
        .expect_err("an empty trigger must be rejected");
}

#[test]
fn keyboard_section_roundtrips_through_config() {
    let mut config = Config::default();
    config.keyboard.bindings.insert(
        KeyTrigger::parse("f1").expect("parse key trigger"),
        Action::TypeText("hello".into()),
    );
    config.keyboard.bindings.insert(
        KeyTrigger::parse("shift+f2").expect("parse key trigger"),
        Action::VolumeUp,
    );
    config.keyboard.bindings.insert(
        KeyTrigger::parse("f17").expect("parse key trigger"),
        Action::MissionControl,
    );

    let roundtripped = copy_and_upgrade(&config);
    assert_eq!(roundtripped.keyboard.bindings.len(), 3);
    assert_eq!(
        roundtripped
            .keyboard
            .bindings
            .get(&KeyTrigger::parse("f1").expect("parse key trigger")),
        Some(&Action::TypeText("hello".into()))
    );
    assert_eq!(
        roundtripped
            .keyboard
            .bindings
            .get(&KeyTrigger::parse("f17").expect("parse key trigger")),
        Some(&Action::MissionControl)
    );
}

#[test]
fn set_keyboard_binding_inserts_and_clears() {
    let mut config = Config::default();
    let f1: KeyTrigger = KeyTrigger::parse("f1").expect("parse key trigger");

    // Insert.
    config.set_keyboard_binding(f1.clone(), Some(Action::VolumeUp));
    assert_eq!(config.keyboard_bindings().get(&f1), Some(&Action::VolumeUp));
    assert_eq!(config.keyboard_bindings().len(), 1);

    // Overwrite.
    config.set_keyboard_binding(f1.clone(), Some(Action::MuteVolume));
    assert_eq!(
        config.keyboard_bindings().get(&f1),
        Some(&Action::MuteVolume)
    );
    assert_eq!(config.keyboard_bindings().len(), 1);

    // Clear via None.
    config.set_keyboard_binding(f1.clone(), None);
    assert!(config.keyboard_bindings().get(&f1).is_none());
    assert!(config.keyboard_bindings().is_empty());
}

#[test]
fn lighting_roundtrips_per_device() {
    let mut cfg = Config::default();
    cfg.set_lighting(
        "g513",
        Lighting {
            enabled: true,
            color: Rgb::parse("00aabb").expect("valid hex"),
            brightness: 75,
        },
    );
    let restored = copy_and_upgrade(&cfg);
    assert_eq!(
        restored.lighting("g513"),
        Some(Lighting {
            enabled: true,
            color: Rgb::parse("00aabb").expect("valid hex"),
            brightness: 75,
        })
    );
    assert_eq!(restored.lighting("absent"), None);
}

#[test]
fn standalone_light_settings_roundtrip_per_device() {
    let mut cfg = Config::default();
    cfg.set_light(
        "raw:046d:c900:ff43:0202:serial:glow",
        LightSettings {
            enabled: false,
            auto_camera: false,
            brightness_percent: 65,
            temperature_kelvin: Some(4600),
            color: None,
        },
    );
    let restored = copy_and_upgrade(&cfg);
    assert_eq!(
        restored.light("raw:046d:c900:ff43:0202:serial:glow"),
        Some(LightSettings {
            enabled: false,
            auto_camera: false,
            brightness_percent: 65,
            temperature_kelvin: Some(4600),
            color: None,
        })
    );
    assert_eq!(restored.light("absent"), None);
}

#[test]
fn standalone_light_camera_automation_roundtrips() {
    let mut cfg = Config::default();
    cfg.set_light(
        "raw:046d:c900:ff43:0202:serial:glow",
        LightSettings {
            enabled: true,
            auto_camera: true,
            brightness_percent: 80,
            temperature_kelvin: Some(5000),
            color: None,
        },
    );

    let restored = copy_and_upgrade(&cfg);
    assert_eq!(
        restored
            .light("raw:046d:c900:ff43:0202:serial:glow")
            .map(|light| light.auto_camera),
        Some(true)
    );
}

#[test]
fn dpi_roundtrips_per_device() {
    let mut cfg = Config::default();
    cfg.set_dpi("2b042", Dpi::new(1600));
    let restored = copy_and_upgrade(&cfg);
    assert_eq!(restored.dpi("2b042"), Some(Dpi::new(1600)));
    assert_eq!(restored.dpi("absent"), None);
}

#[test]
fn smartshift_roundtrips_per_device() {
    let mut cfg = Config::default();
    let smartshift = SmartShift {
        mode: WheelMode::Ratchet,
        auto_disengage: SmartShiftAutoDisengage::Threshold(
            SmartShiftThreshold::try_new(16).expect("valid threshold"),
        ),
        tunable_torque: Some(TunableTorque::try_new(30).expect("valid torque")),
    };
    cfg.set_smartshift("2b042", smartshift);
    let restored = copy_and_upgrade(&cfg);
    assert_eq!(restored.smartshift("2b042"), Some(smartshift));
    assert_eq!(restored.smartshift("absent"), None);
}

#[test]
fn invert_scroll_roundtrips_per_device() {
    let mut cfg = Config::default();
    // Default is the native direction for any device, present or not.
    assert!(!cfg.invert_scroll("2b042"));
    cfg.set_invert_scroll("2b042", true);
    let restored = copy_and_upgrade(&cfg);
    assert!(restored.invert_scroll("2b042"));
    assert!(!restored.invert_scroll("absent"));
}

#[test]
fn scroll_resolution_roundtrips_all_three_states() {
    let mut cfg = Config::default();
    assert_eq!(cfg.scroll_resolution("mouse"), None);

    cfg.set_scroll_resolution("mouse", Some(ScrollResolution::Low));
    let low = copy_and_upgrade(&cfg);
    assert_eq!(low.scroll_resolution("mouse"), Some(ScrollResolution::Low));

    cfg.set_scroll_resolution("mouse", Some(ScrollResolution::High));
    let high = copy_and_upgrade(&cfg);
    assert_eq!(
        high.scroll_resolution("mouse"),
        Some(ScrollResolution::High)
    );

    cfg.set_scroll_resolution("mouse", None);
    let unmanaged = copy_and_upgrade(&cfg);
    assert_eq!(unmanaged.scroll_resolution("mouse"), None);
}

#[test]
fn bindings_roundtrip_per_device() {
    let mut cfg = Config::default();
    cfg.set_binding("2b042", ButtonId::Back, Binding::Single(Action::Copy));
    cfg.set_binding(
        "2b042",
        ButtonId::DpiToggle,
        Binding::Single(Action::CustomShortcut(
            KeyCombo::parse("Cmd+P").expect("valid shortcut failed"),
        )),
    );
    cfg.set_binding("4082d", ButtonId::Back, Binding::Single(Action::Paste));

    let parsed = copy_and_upgrade(&cfg);

    // Per-device isolation.
    let a = parsed.bindings_for("2b042");
    assert_eq!(a.get(&ButtonId::Back), Some(&Binding::Single(Action::Copy)));
    assert_eq!(
        a.get(&ButtonId::DpiToggle),
        Some(&Binding::Single(Action::CustomShortcut(
            KeyCombo::parse("Cmd+P").expect("valid shortcut failed")
        )))
    );

    let b = parsed.bindings_for("4082d");
    assert_eq!(
        b.get(&ButtonId::Back),
        Some(&Binding::Single(Action::Paste))
    );
    assert_eq!(b.len(), 1, "device b should only see its own bindings");

    // Unknown device returns empty map without panic.
    assert!(parsed.bindings_for("deadbeef").is_empty());
}

#[test]
fn dpi_presets_roundtrip_per_device() {
    let mut cfg = Config::default();
    cfg.set_dpi_presets("2b042", vec![Dpi::new(800), Dpi::new(1600), Dpi::new(3200)]);
    cfg.set_dpi_presets("4082d", vec![Dpi::new(400), Dpi::new(1600)]);

    let parsed = copy_and_upgrade(&cfg);

    assert_eq!(
        parsed.dpi_presets("2b042"),
        vec![Dpi::new(800), Dpi::new(1600), Dpi::new(3200)]
    );
    assert_eq!(
        parsed.dpi_presets("4082d"),
        vec![Dpi::new(400), Dpi::new(1600)]
    );
    assert!(parsed.dpi_presets("unknown").is_empty());
}

#[test]
fn device_identity_roundtrips_and_is_iterable() {
    let mut cfg = Config::default();
    let mouse = DeviceIdentity {
        display_name: "MX Master 3S".to_string(),
        model_info: None,
        codename: None,
        kind: DeviceKind::Mouse,
        capabilities: Capabilities {
            buttons: true,
            pointer: true,
            lighting: false,
            scroll_inversion: false,
            hires_wheel: true,
            thumbwheel: false,
            haptic_feedback: false,
            haptic_panel: false,
            touchpad_raw_xy: false,
        },
        light_capabilities: None,
        driver_id: None,
        registry_model_id: None,
    };
    cfg.set_device_identity("2b034", mouse.clone());
    // Recording an identity must not disturb unrelated per-device state.
    cfg.set_binding(
        "2b034",
        ButtonId::Back,
        Binding::Single(Action::BrowserBack),
    );

    let parsed = copy_and_upgrade(&cfg);
    assert_eq!(parsed.device_identity("2b034"), Some(&mouse));
    assert_eq!(parsed.device_identity("absent"), None);
    assert_eq!(
        parsed.bindings_for("2b034").get(&ButtonId::Back),
        Some(&Binding::Single(Action::BrowserBack)),
        "identity must coexist with bindings on the same device block"
    );
    assert_eq!(
        parsed.known_identities(),
        vec![("2b034", &mouse)]
    );
}

#[test]
fn touchpad_gesture_settings_default_off_and_round_trip_when_enabled() {
    let mut cfg = Config::default();
    assert!(!cfg.touchpad_gestures_enabled("casa"));

    cfg.set_touchpad_gestures_enabled("casa", true);
    cfg.set_touchpad_binding(
        "casa",
        ButtonId::TouchpadThreeFingerSwipeUp,
        Action::MissionControl,
    )
    .expect("touchpad trigger");

    let parsed = copy_and_upgrade(&cfg);
    assert!(parsed.touchpad_gestures_enabled("casa"));
    assert_eq!(
        parsed
            .bindings_for("casa")
            .get(&ButtonId::TouchpadThreeFingerSwipeUp),
        Some(&Binding::Single(Action::MissionControl))
    );
}

#[test]
fn touchpad_binding_api_rejects_non_touchpad_trigger() {
    let mut cfg = Config::default();
    let error = cfg
        .set_touchpad_binding("casa", ButtonId::Back, Action::BrowserBack)
        .expect_err("mouse trigger must be rejected");

    assert_eq!(error, TouchpadTriggerError(ButtonId::Back));
    assert!(cfg.bindings_for("casa").is_empty());
}

#[test]
fn custom_device_name_roundtrips_without_changing_model_identity() {
    let mut config = Config::default();
    config.set_device_identity(
        "receiver:test:slot:1",
        DeviceIdentity {
            display_name: "MX Master 4".into(),
            model_info: None,
            codename: None,
            kind: DeviceKind::Mouse,
            capabilities: Capabilities::default(),
            light_capabilities: None,
            driver_id: None,
            registry_model_id: None,
        },
    );
    config.set_device_custom_name("receiver:test:slot:1", Some("Office".into()));

    let parsed = copy_and_upgrade(&config);

    assert_eq!(
        parsed.device_custom_name("receiver:test:slot:1"),
        Some("Office")
    );
    assert_eq!(
        parsed
            .device_identity("receiver:test:slot:1")
            .map(|identity| identity.display_name.as_str()),
        Some("MX Master 4")
    );
}

#[test]
fn persisted_identity_strips_per_unit_identifiers() {
    let mut config = Config::default();
    config.set_device_identity(
        "receiver:test:slot:1",
        DeviceIdentity {
            display_name: "Mouse".into(),
            model_info: Some(DeviceModelInfo {
                entity_count: 1,
                serial_number: Some("private-serial".into()),
                unit_id: [1, 2, 3, 4],
                transports: DeviceTransports::default(),
                model_ids: [0xb034, 0, 0],
                extended_model_id: 2,
            }),
            codename: None,
            kind: DeviceKind::Mouse,
            capabilities: Capabilities::default(),
            light_capabilities: None,
            driver_id: None,
            registry_model_id: None,
        },
    );
    let model = config
        .device_identity("receiver:test:slot:1")
        .and_then(|identity| identity.model_info.as_ref())
        .expect("model info");
    assert_eq!(model.serial_number, None);
    assert_eq!(model.unit_id, [0; 4]);
}

#[test]
fn selected_device_roundtrips() {
    let mut cfg = Config::default();
    assert_eq!(cfg.selected_device(), None);
    cfg.set_selected_device(Some("2b042".into()));
    let parsed = copy_and_upgrade(&cfg);
    assert_eq!(parsed.selected_device(), Some("2b042"));
}

#[test]
fn per_app_overlay_takes_precedence() {
    let mut cfg = Config::default();
    cfg.set_binding(
        "2b042",
        ButtonId::Back,
        Binding::Single(Action::BrowserBack),
    );
    cfg.set_binding(
        "2b042",
        ButtonId::Forward,
        Binding::Single(Action::BrowserForward),
    );
    cfg.set_per_app_binding(
        "2b042",
        "com.microsoft.VSCode",
        ButtonId::Back,
        Some(Action::Undo),
    );

    // Global: both buttons are browser nav.
    let global = cfg.effective_bindings("2b042", None);
    assert_eq!(
        global.get(&ButtonId::Back),
        Some(&Binding::Single(Action::BrowserBack))
    );
    assert_eq!(
        global.get(&ButtonId::Forward),
        Some(&Binding::Single(Action::BrowserForward))
    );

    // VSCode: Back overridden (wrapped as Single), Forward inherits.
    let vscode = cfg.effective_bindings("2b042", Some("com.microsoft.VSCode"));
    assert_eq!(
        vscode.get(&ButtonId::Back),
        Some(&Binding::Single(Action::Undo))
    );
    assert_eq!(
        vscode.get(&ButtonId::Forward),
        Some(&Binding::Single(Action::BrowserForward))
    );

    // Unrelated app falls through.
    let other = cfg.effective_bindings("2b042", Some("com.apple.Safari"));
    assert_eq!(
        other.get(&ButtonId::Back),
        Some(&Binding::Single(Action::BrowserBack))
    );
}

#[test]
fn per_app_binding_removal_prunes_empty_app() {
    let mut cfg = Config::default();
    cfg.set_per_app_binding(
        "2b042",
        "com.example.App",
        ButtonId::Back,
        Some(Action::Copy),
    );
    cfg.set_per_app_binding("2b042", "com.example.App", ButtonId::Back, None);
    assert!(
        cfg.devices.get("2b042").expect("an entry").per_app_bindings.is_empty(),
        "removing last override should prune the app entry"
    );
}

#[test]
fn windows_exe_selector_matches_versioned_path() {
    let mut cfg = Config::default();
    cfg.set_binding(
        "2b042",
        ButtonId::Back,
        Binding::Single(Action::BrowserBack),
    );
    cfg.set_per_app_binding(
        "2b042",
        "exe:sharex.exe",
        ButtonId::Back,
        Some(Action::Copy),
    );
    cfg.set_per_app_binding(
        "2b042",
        "exe:sharex.exe",
        ButtonId::Forward,
        Some(Action::Paste),
    );

    let store_path = r"c:\program files\windowsapps\sharex_14.0.0.0_x64__abc\sharex.exe";
    let effective = cfg.effective_bindings("2b042", Some(store_path));
    assert_eq!(
        effective.get(&ButtonId::Back),
        Some(&Binding::Single(Action::Copy))
    );
    assert_eq!(
        effective.get(&ButtonId::Forward),
        Some(&Binding::Single(Action::Paste))
    );
    assert!(cfg.has_app_override("2b042", store_path));

    // Forward slash separators still resolve (hand-authored configs).
    let unixish = r"c:/tools/sharex/sharex.exe";
    assert_eq!(
        cfg.effective_bindings("2b042", Some(unixish))
            .get(&ButtonId::Back),
        Some(&Binding::Single(Action::Copy))
    );

    // Extension match is case-insensitive; selector key is lower-cased.
    let mixed = r"C:\Tools\ShareX\ShareX.EXE";
    assert_eq!(
        cfg.effective_bindings("2b042", Some(mixed))
            .get(&ButtonId::Back),
        Some(&Binding::Single(Action::Copy))
    );
}

#[test]
fn windows_exe_selector_exact_path_takes_precedence() {
    let mut cfg = Config::default();
    let exact = r"c:\program files\windowsapps\sharex_14.0.0.0_x64__abc\sharex.exe";
    cfg.set_per_app_binding(
        "2b042",
        "exe:sharex.exe",
        ButtonId::Back,
        Some(Action::Copy),
    );
    cfg.set_per_app_binding("2b042", exact, ButtonId::Back, Some(Action::Undo));

    assert_eq!(
        cfg.effective_bindings("2b042", Some(exact))
            .get(&ButtonId::Back),
        Some(&Binding::Single(Action::Undo))
    );

    // A different install path still falls back to the stable selector.
    let other = r"c:\program files\windowsapps\sharex_15.0.0.0_x64__abc\sharex.exe";
    assert_eq!(
        cfg.effective_bindings("2b042", Some(other))
            .get(&ButtonId::Back),
        Some(&Binding::Single(Action::Copy))
    );
}

#[test]
fn windows_exe_selector_ignores_non_exe_identifiers() {
    let mut cfg = Config::default();
    cfg.set_binding(
        "2b042",
        ButtonId::Back,
        Binding::Single(Action::BrowserBack),
    );
    cfg.set_per_app_binding("2b042", "exe:code.exe", ButtonId::Back, Some(Action::Undo));

    // macOS bundle ids must not be treated as Windows paths.
    assert_eq!(
        cfg.effective_bindings("2b042", Some("com.microsoft.VSCode"))
            .get(&ButtonId::Back),
        Some(&Binding::Single(Action::BrowserBack))
    );
    assert!(!cfg.has_app_override("2b042", "com.microsoft.VSCode"));
}

#[test]
fn app_settings_launch_at_login_roundtrips() {
    let mut cfg = Config::default();
    cfg.app_settings.launch_at_login = false;
    let parsed = copy_and_upgrade(&cfg);
    assert!(!parsed.app_settings.launch_at_login);
}

#[test]
fn set_gesture_direction_upgrades_single_to_gesture() {
    let mut cfg = Config::default();
    // Start from a Single binding, then bind a swipe direction.
    cfg.set_binding(
        "2b042",
        ButtonId::Back,
        Binding::Single(Action::BrowserBack),
    );
    cfg.set_gesture_direction("2b042", ButtonId::Back, GestureDirection::Up, Action::Copy);

    match cfg.bindings_for("2b042").get(&ButtonId::Back) {
        Some(Binding::Gesture(map)) => {
            // The prior single action is preserved as the Click entry.
            assert_eq!(
                map.get(&GestureDirection::Click),
                Some(&Action::BrowserBack)
            );
            assert_eq!(map.get(&GestureDirection::Up), Some(&Action::Copy));
        }
        other => panic!("expected Gesture after upgrade, got {other:?}"),
    }
}

#[test]
fn set_gesture_direction_on_fresh_gesture_button_seeds_click() {
    // Binding one direction on a never-configured gesture button must still
    // persist a `Click`, so the click projection is the canonical default
    // rather than `Action::DoNothing` (which reads as a no-op press).
    let mut cfg = Config::default();
    cfg.set_gesture_direction(
        "2b042",
        ButtonId::GestureButton,
        GestureDirection::Up,
        Action::Copy,
    );

    match cfg.bindings_for("2b042").get(&ButtonId::GestureButton) {
        Some(Binding::Gesture(map)) => {
            assert_eq!(map.get(&GestureDirection::Up), Some(&Action::Copy));
            assert_eq!(
                map.get(&GestureDirection::Click),
                Some(&default_gesture_binding(
                    GestureDirection::Click
                )),
                "a fresh gesture button must seed a Click from its default"
            );
        }
        other => panic!("expected Gesture, got {other:?}"),
    }
}

#[test]
fn set_gesture_mode_seeds_a_fresh_button_with_full_directions() {
    let mut cfg = Config::default();
    // The dedicated HID++ gesture button gets the full default direction map.
    cfg.set_gesture_mode("2b042", ButtonId::GestureButton, true);
    match cfg.bindings_for("2b042").get(&ButtonId::GestureButton) {
        Some(Binding::Gesture(map)) => {
            for dir in GestureDirection::ALL {
                assert_eq!(map.get(&dir), Some(&default_gesture_binding(dir)));
            }
        }
        other => panic!("expected full default gesture map, got {other:?}"),
    }

    // A fresh OS-hook button also gets all five directions, not just a Click:
    // its native action stays as Click, and the swipe arms are defaults — so
    // the GUI's shown defaults are exactly what the runtime dispatches.
    cfg.set_gesture_mode("2b042", ButtonId::Forward, true);
    match cfg.bindings_for("2b042").get(&ButtonId::Forward) {
        Some(Binding::Gesture(map)) => {
            assert_eq!(
                map.get(&GestureDirection::Click),
                Some(&default_binding(ButtonId::Forward))
            );
            for dir in [
                GestureDirection::Up,
                GestureDirection::Down,
                GestureDirection::Left,
                GestureDirection::Right,
            ] {
                assert_eq!(map.get(&dir), Some(&default_gesture_binding(dir)));
            }
        }
        other => panic!("expected full gesture map for Forward, got {other:?}"),
    }
    // Both promotions coexist — no exclusivity.
    assert!(cfg.is_gesture_mode("2b042", ButtonId::GestureButton));
    assert!(cfg.is_gesture_mode("2b042", ButtonId::Forward));
}

#[test]
fn gesture_mode_is_per_button_and_not_exclusive() {
    // The owner lock is gone: promoting a second button must not demote the
    // dedicated gesture button's default gesture mode.
    let mut cfg = Config::default();
    cfg.set_gesture_mode("2b042", ButtonId::MiddleClick, true);

    assert!(cfg.is_gesture_mode("2b042", ButtonId::GestureButton));
    assert!(cfg.is_gesture_mode("2b042", ButtonId::MiddleClick));
    let buttons = cfg.gesture_mode_buttons("2b042");
    assert!(
        buttons.contains(&ButtonId::GestureButton),
        "got: {buttons:?}"
    );
    assert!(buttons.contains(&ButtonId::MiddleClick), "got: {buttons:?}");
}

#[test]
fn set_gesture_mode_on_keeps_click_and_seeds_directions() {
    // Promoting a single-bound button keeps its action as the Click entry
    // and seeds every swipe arm, so the button exposes the full five-way set.
    let mut cfg = Config::default();
    cfg.set_binding("2b042", ButtonId::Back, Binding::Single(Action::Copy));
    cfg.set_gesture_mode("2b042", ButtonId::Back, true);

    let bindings = cfg.bindings_for("2b042");
    let Some(Binding::Gesture(map)) = bindings.get(&ButtonId::Back) else {
        panic!(
            "expected a gesture binding, got {:?}",
            bindings.get(&ButtonId::Back)
        );
    };
    assert_eq!(map.get(&GestureDirection::Click), Some(&Action::Copy));
    for dir in [
        GestureDirection::Up,
        GestureDirection::Down,
        GestureDirection::Left,
        GestureDirection::Right,
    ] {
        assert_eq!(
            map.get(&dir),
            Some(&default_gesture_binding(dir)),
            "unseeded arm {dir:?}"
        );
    }
}

#[test]
fn set_gesture_mode_off_demotes_to_the_click_action() {
    let mut cfg = Config::default();
    cfg.set_gesture_direction(
        "2b042",
        ButtonId::GestureButton,
        GestureDirection::Click,
        Action::Paste,
    );
    cfg.set_gesture_mode("2b042", ButtonId::GestureButton, false);

    assert!(!cfg.is_gesture_mode("2b042", ButtonId::GestureButton));
    assert_eq!(
        cfg.bindings_for("2b042").get(&ButtonId::GestureButton),
        Some(&Binding::Single(Action::Paste))
    );
}

#[test]
fn set_gesture_mode_off_without_click_falls_back_to_the_default() {
    // A sparse hand-edited map with no Click must not demote to a dead
    // Single(None) — the button falls back to its canonical single default.
    let mut cfg = Config::default();
    let mut map = OrderedMap::new();
    map.insert(GestureDirection::Up, Action::Copy);
    cfg.set_binding("2b042", ButtonId::Back, Binding::Gesture(map));
    cfg.set_gesture_mode("2b042", ButtonId::Back, false);

    assert_eq!(
        cfg.bindings_for("2b042").get(&ButtonId::Back),
        Some(&Binding::Single(Action::BrowserBack))
    );
}

#[test]
fn off_then_on_restores_customized_swipe_arms() {
    // Turning gesture mode off must not destroy the user's four customized
    // swipe arms: re-enabling restores the map exactly as it was — the
    // guarantee the owner-lock model gave via dormant maps.
    let mut cfg = Config::default();
    cfg.set_gesture_mode("2b042", ButtonId::GestureButton, true);
    cfg.set_gesture_direction(
        "2b042",
        ButtonId::GestureButton,
        GestureDirection::Up,
        Action::Copy,
    );
    cfg.set_gesture_mode("2b042", ButtonId::GestureButton, false);
    assert!(!cfg.is_gesture_mode("2b042", ButtonId::GestureButton));

    cfg.set_gesture_mode("2b042", ButtonId::GestureButton, true);
    match cfg.bindings_for("2b042").get(&ButtonId::GestureButton) {
        Some(Binding::Gesture(map)) => {
            assert_eq!(
                map.get(&GestureDirection::Up),
                Some(&Action::Copy),
                "the customized arm survives an off/on round trip"
            );
        }
        other => panic!("expected the restored gesture map, got {other:?}"),
    }
}

#[test]
fn re_promoting_a_genuine_single_keeps_it_as_click() {
    // A user's deliberate Single that happens to equal the button's
    // canonical default must not be mistaken for the pinned-off marker:
    // promoting keeps their action as the Click arm instead of resetting
    // the whole binding to the canonical default map.
    let mut cfg = Config::default();
    cfg.set_binding(
        "2b042",
        ButtonId::GestureButton,
        Binding::Single(default_binding(ButtonId::GestureButton)),
    );
    cfg.set_gesture_mode("2b042", ButtonId::GestureButton, true);
    match cfg.bindings_for("2b042").get(&ButtonId::GestureButton) {
        Some(Binding::Gesture(map)) => {
            assert_eq!(
                map.get(&GestureDirection::Click),
                Some(&default_binding(ButtonId::GestureButton)),
                "the user's explicit action stays as Click"
            );
        }
        other => panic!("expected a gesture binding, got {other:?}"),
    }
}

#[test]
fn disabled_gesture_maps_survive_a_save_load_cycle() {
    let mut cfg = Config::default();
    cfg.set_gesture_direction(
        "2b042",
        ButtonId::GestureButton,
        GestureDirection::Down,
        Action::Paste,
    );
    cfg.set_gesture_mode("2b042", ButtonId::GestureButton, false);

    let mut restored = copy_and_upgrade(&cfg);
    restored.set_gesture_mode("2b042", ButtonId::GestureButton, true);
    match restored.bindings_for("2b042").get(&ButtonId::GestureButton) {
        Some(Binding::Gesture(map)) => {
            assert_eq!(map.get(&GestureDirection::Down), Some(&Action::Paste));
        }
        other => panic!("expected the persisted stash restored, got {other:?}"),
    }
}

#[test]
fn a_link_override_shadows_the_device_value() {
    let mut device = DeviceConfig {
        dpi: Some(Dpi::new(1600)),
        ..DeviceConfig::default()
    };
    device.links.insert(
        "receiver:82839805:slot:1".to_string(),
        LinkConfig {
            capabilities: None,
            overrides: LinkOverrides {
                dpi: Some(Dpi::new(800)),
                ..LinkOverrides::default()
            },
        },
    );

    assert_eq!(
        device.effective_dpi("receiver:82839805:slot:1"),
        Some(Dpi::new(800)),
        "the link the user set it on wins"
    );
    assert_eq!(
        device.effective_dpi("direct:046d:c08d"),
        Some(Dpi::new(1600)),
        "every other link keeps the device default"
    );
}

#[test]
fn an_unknown_route_gets_the_device_value() {
    // A device seen on a route with no entry yet must not lose its settings.
    let device = DeviceConfig {
        dpi: Some(Dpi::new(1600)),
        ..DeviceConfig::default()
    };
    assert_eq!(
        device.effective_dpi("direct:046d:ffff"),
        Some(Dpi::new(1600))
    );
}

#[test]
fn a_device_is_forgotten_whole() {
    let mut cfg = Config::default();
    cfg.set_dpi("2b042", Dpi::new(800));
    cfg.set_dpi("4082d", Dpi::new(400));
    assert!(cfg.remove_device("2b042"));
    assert!(!cfg.remove_device("2b042"));
    assert_eq!(cfg.dpi("2b042"), None);
    assert_eq!(cfg.dpi("4082d"), Some(Dpi::new(400)));
}

#[test]
fn profiles_are_listed_and_removed() {
    let mut cfg = Config::default();
    for app in ["com.b", "com.a"] {
        cfg.set_per_app_binding("2b042", app, ButtonId::Back, Some(Action::Copy));
    }
    assert_eq!(
        cfg.app_profiles("2b042"),
        vec!["com.a".to_string(), "com.b".to_string()]
    );
    assert_eq!(
        cfg.per_app_overrides("2b042", "com.a").map(|profile| profile.len()),
        Some(1)
    );
    cfg.remove_app_profile("2b042", "com.a");
    cfg.remove_app_profile("absent", "com.a");
    assert_eq!(cfg.app_profiles("2b042"), vec!["com.b".to_string()]);
    assert!(cfg.per_app_overrides("2b042", "com.a").is_none());
    assert!(!cfg.devices.contains_key("absent"));
}

#[test]
fn the_ring_is_set_place_by_place() {
    let mut cfg = Config::default();
    assert!(cfg.action_ring("mouse").is_default());
    cfg.set_action_ring_enabled("mouse", false);
    cfg.set_action_ring_haptics("mouse", false);
    let copy = RingAction::new(Action::Copy).expect("it may stand there");
    cfg.set_action_ring_slot("mouse", ActionRingSlot::North, Some(copy.clone()));
    cfg.set_action_ring_icon("mouse", ActionRingSlot::North, Some(ActionRingIcon::Ban));
    let ring = cfg.action_ring("mouse");
    assert!(!ring.enabled && !ring.haptics);
    assert_eq!(ring.default.actions.get(&ActionRingSlot::North), Some(&copy));
    assert_eq!(
        ring.default.icons.get(&ActionRingSlot::North),
        Some(&ActionRingIcon::Ban)
    );
    cfg.set_action_ring_slot("mouse", ActionRingSlot::North, None);
    assert_eq!(
        cfg.action_ring("mouse").default.actions.get(&ActionRingSlot::North),
        None
    );
}

#[test]
fn camera_profiles_are_saved_and_deleted() {
    let bright = CameraControls {
        brightness: Some(7),
        contrast: None,
        saturation: None,
        sharpness: None,
        zoom: None,
    };
    let mut cfg = Config::default();
    cfg.set_camera_controls("cam", bright);
    cfg.save_camera_profile("cam", "Bright", bright);
    cfg.set_camera_active_profile("cam", Some("Bright".to_string()));
    assert_eq!(cfg.camera_controls("cam"), Some(bright));
    assert_eq!(cfg.camera_profiles("cam").get("Bright"), Some(&bright));
    assert_eq!(cfg.camera_active_profile("cam"), Some("Bright".to_string()));
    cfg.delete_camera_profile("cam", "Bright");
    assert!(cfg.camera_profiles("cam").is_empty());
    assert_eq!(cfg.camera_active_profile("cam"), None);
}

#[test]
fn a_link_overrides_lighting_and_the_wheel_too() {
    let dim = Lighting {
        enabled: true,
        color: Rgb::new(1, 2, 3),
        brightness: 10,
    };
    let free = SmartShift {
        mode: WheelMode::FreeSpin,
        auto_disengage: SmartShiftAutoDisengage::Never,
        tunable_torque: None,
    };
    let mut device = DeviceConfig {
        lighting: Some(Lighting::default()),
        ..DeviceConfig::default()
    };
    device.links.insert(
        "direct:046d:c08d".to_string(),
        LinkConfig {
            capabilities: None,
            overrides: LinkOverrides {
                lighting: Some(dim),
                smartshift: Some(free),
                ..LinkOverrides::default()
            },
        },
    );
    assert_eq!(device.effective_lighting("direct:046d:c08d"), Some(dim));
    assert_eq!(device.effective_lighting("elsewhere"), Some(Lighting::default()));
    assert_eq!(device.effective_smartshift("direct:046d:c08d"), Some(free));
    assert_eq!(device.effective_smartshift("elsewhere"), None);
}

#[test]
fn an_ephemeral_configuration_says_so() {
    assert!(Config::ephemeral().ephemeral);
    assert!(!Config::default().ephemeral);
}

#[test]
fn a_written_trigger_is_read_back() {
    let t: KeyTrigger = KeyTrigger::parse("alt+ctrl+cmd+shift+f20").expect("parse key trigger");
    assert_eq!(t.label(), "shift+command+control+option+f20");
    assert_eq!(KeyTrigger::parse(&t.label()).expect("parse key trigger"), t);
}

#[test]
fn smooth_scroll_is_off_until_it_is_chosen() {
    let mut cfg = Config::default();
    assert!(!cfg.app_settings.smooth_scroll);
    cfg.app_settings.smooth_scroll = true;
    assert!(copy_and_upgrade(&cfg).app_settings.smooth_scroll);
}

#[test]
fn the_gesture_modes_of_two_buttons_are_independent() {
    let mut cfg = Config::default();
    cfg.set_gesture_mode("2b042", ButtonId::Back, true);
    cfg.set_gesture_mode("4082d", ButtonId::GestureButton, false);

    let restored = copy_and_upgrade(&cfg);
    assert!(restored.is_gesture_mode("2b042", ButtonId::Back));
    assert!(restored.is_gesture_mode("2b042", ButtonId::GestureButton));
    assert!(restored.gesture_mode_buttons("4082d").is_empty());
}

#[test]
fn choices_of_the_interface_are_carried_through() {
    let mut cfg = Config::default();
    assert_eq!(cfg.app_settings.ui_scale, None);
    assert_eq!(cfg.app_settings.vertical_scroll_sensitivity, None);
    cfg.app_settings.ui_scale = Some("extra_large".to_string());
    cfg.app_settings.device_view_mode = Some("carousel".to_string());
    cfg.app_settings.asset_source = Some("openlogi".to_string());
    cfg.app_settings.app_icon = Some("classic".to_string());
    cfg.app_settings.auto_download_assets = Some(false);
    cfg.app_settings.vertical_scroll_sensitivity =
        Some(VerticalScrollSensitivity::try_new(7).expect("valid sensitivity"));
    assert_eq!(copy_and_upgrade(&cfg).app_settings, cfg.app_settings);
}

#[test]
fn a_sensitivity_outside_its_range_is_refused() {
    for value in [0, 101, i32::MIN] {
        assert!(VerticalScrollSensitivity::try_new(value).is_err());
    }
    assert_eq!(
        VerticalScrollSensitivity::try_new(100).map(|sensitivity| sensitivity.value),
        Ok(100)
    );
}
