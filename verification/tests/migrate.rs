//! Bringing older configurations up to date.

use openlogi::binding::action::Action;
use openlogi::binding::button::{ButtonId, GestureDirection};
use openlogi::binding::shape::{default_binding, default_gesture_binding, Binding};
use openlogi::config::device::{DeviceConfig, DeviceConfigError, RawDeviceConfig};
use openlogi::config::migrate::UnsupportedSchemaVersion;
use openlogi::config::settings::GestureOwner;
use openlogi::config::{Config, SCHEMA_VERSION};
use openlogi::hid::Dpi;
use openlogi::ordered::OrderedMap;

fn directions(
    entries: Vec<(GestureDirection, Action)>,
) -> OrderedMap<GestureDirection, Action> {
    let mut map = OrderedMap::new();
    for (direction, action) in entries {
        map.insert(direction, action);
    }
    map
}

fn actions(entries: Vec<(ButtonId, Action)>) -> OrderedMap<ButtonId, Action> {
    let mut map = OrderedMap::new();
    for (button, action) in entries {
        map.insert(button, action);
    }
    map
}

fn bindings(entries: Vec<(ButtonId, Binding)>) -> OrderedMap<ButtonId, Binding> {
    let mut map = OrderedMap::new();
    for (button, binding) in entries {
        map.insert(button, binding);
    }
    map
}

fn file(schema_version: u32, devices: Vec<(&str, DeviceConfig)>) -> Config {
    let mut config = Config {
        schema_version,
        ..Config::default()
    };
    for (key, device) in devices {
        config.devices.insert(key.to_string(), device);
    }
    config
}

fn loaded(schema_version: u32, devices: Vec<(&str, DeviceConfig)>) -> Config {
    let mut config = file(schema_version, devices);
    config.upgrade().expect("load");
    config
}

fn owned_by_middle_click() -> DeviceConfig {
    DeviceConfig {
        gesture_owner: Some(GestureOwner::Button(ButtonId::MiddleClick)),
        bindings: bindings(vec![
            (
                ButtonId::GestureButton,
                Binding::Gesture(directions(vec![
                    (GestureDirection::Up, Action::Copy),
                    (GestureDirection::Click, Action::Paste),
                ])),
            ),
            (
                ButtonId::MiddleClick,
                Binding::Gesture(directions(vec![
                    (GestureDirection::Up, Action::MissionControl),
                    (GestureDirection::Click, Action::MiddleClick),
                ])),
            ),
        ]),
        ..DeviceConfig::default()
    }
}

#[test]
fn migrates_v1_button_and_gesture_bindings() {
    let raw = RawDeviceConfig {
        device: DeviceConfig::default(),
        button_bindings: actions(vec![(ButtonId::Back, Action::BrowserBack)]),
        gesture_bindings: directions(vec![
            (GestureDirection::Up, Action::Copy),
            (GestureDirection::Click, Action::Paste),
        ]),
    };
    let device = DeviceConfig::try_from(raw).expect("load v1");
    let cfg = loaded(1, vec![("2b042", device)]);
    let bindings = cfg.bindings_for("2b042");
    assert_eq!(
        bindings.get(&ButtonId::Back),
        Some(&Binding::Single(Action::BrowserBack))
    );
    let gesture = directions(vec![
        (GestureDirection::Up, Action::Copy),
        (GestureDirection::Click, Action::Paste),
    ]);
    assert_eq!(
        bindings.get(&ButtonId::GestureButton),
        Some(&Binding::Gesture(gesture))
    );
    assert_eq!(cfg.schema_version, SCHEMA_VERSION);
}

#[test]
fn migration_gesture_map_wins_over_legacy_single_gesture_button_entry() {
    let raw = RawDeviceConfig {
        device: DeviceConfig::default(),
        button_bindings: actions(vec![(ButtonId::GestureButton, Action::MissionControl)]),
        gesture_bindings: directions(vec![
            (GestureDirection::Up, Action::Copy),
            (GestureDirection::Down, Action::Paste),
        ]),
    };
    let cfg = loaded(
        1,
        vec![("2b042", DeviceConfig::try_from(raw).expect("load v1"))],
    );
    let gesture = directions(vec![
        (GestureDirection::Up, Action::Copy),
        (GestureDirection::Down, Action::Paste),
    ]);
    assert_eq!(
        cfg.bindings_for("2b042").get(&ButtonId::GestureButton),
        Some(&Binding::Gesture(gesture)),
        "gesture map must win over the legacy single GestureButton entry"
    );
}

#[test]
fn migration_drops_vestigial_lone_gesture_button_single() {
    let raw = RawDeviceConfig {
        device: DeviceConfig::default(),
        button_bindings: actions(vec![
            (ButtonId::GestureButton, Action::MissionControl),
            (ButtonId::Back, Action::BrowserBack),
        ]),
        gesture_bindings: directions(vec![]),
    };
    let cfg = loaded(
        1,
        vec![("2b042", DeviceConfig::try_from(raw).expect("load v1"))],
    );
    let bindings = cfg.bindings_for("2b042");
    assert_eq!(
        bindings.get(&ButtonId::Back),
        Some(&Binding::Single(Action::BrowserBack))
    );
    assert_eq!(bindings.get(&ButtonId::GestureButton), None);
}

#[test]
fn rejects_newer_schema_version_but_accepts_v1() {
    assert_eq!(
        file(99, vec![]).upgrade(),
        Err(UnsupportedSchemaVersion { found: 99 })
    );
    assert!(
        file(1, vec![]).upgrade().is_ok(),
        "v1 should still load"
    );
}

#[test]
fn schema_version_zero_is_rejected() {
    assert_eq!(
        file(0, vec![]).upgrade(),
        Err(UnsupportedSchemaVersion { found: 0 })
    );
}

#[test]
fn a_refused_configuration_is_left_as_it_was() {
    let mut config = file(99, vec![("direct:046d:c08d:unit:6be9d300", owned_by_middle_click())]);
    let before = config.clone();
    assert!(config.upgrade().is_err());
    assert_eq!(config, before);
}

#[test]
fn a_current_configuration_is_left_as_it_was() {
    let mut config = file(
        SCHEMA_VERSION,
        vec![("direct:046d:c08d:unit:6be9d300", owned_by_middle_click())],
    );
    let before = config.clone();
    assert_eq!(config.upgrade(), Ok(()));
    assert_eq!(config, before);
}

#[test]
fn migration_demotes_the_dormant_non_owner_gesture_maps() {
    let cfg = loaded(3, vec![("2b042", owned_by_middle_click())]);
    assert!(cfg.is_gesture_mode("2b042", ButtonId::MiddleClick));
    assert!(!cfg.is_gesture_mode("2b042", ButtonId::GestureButton));
    assert_eq!(
        cfg.bindings_for("2b042").get(&ButtonId::GestureButton),
        Some(&Binding::Single(Action::Paste)),
        "the dormant map demotes to its Click choice"
    );
    assert_eq!(cfg.devices.get("2b042").expect("an entry").gesture_owner, None);
}

#[test]
fn migration_off_pins_the_dedicated_button_out_of_gesture_mode() {
    let cfg = loaded(
        3,
        vec![(
            "2b042",
            DeviceConfig {
                gesture_owner: Some(GestureOwner::Off),
                ..DeviceConfig::default()
            },
        )],
    );
    assert!(!cfg.is_gesture_mode("2b042", ButtonId::GestureButton));
    assert!(cfg.gesture_mode_buttons("2b042").is_empty());
    assert_eq!(
        cfg.bindings_for("2b042").get(&ButtonId::GestureButton),
        Some(&Binding::Single(default_binding(ButtonId::GestureButton)))
    );
}

#[test]
fn migration_materializes_a_hidpp_owners_missing_map() {
    let cfg = loaded(
        3,
        vec![(
            "2b042",
            DeviceConfig {
                gesture_owner: Some(GestureOwner::Button(ButtonId::HapticPanel)),
                ..DeviceConfig::default()
            },
        )],
    );
    assert!(cfg.is_gesture_mode("2b042", ButtonId::HapticPanel));
    match cfg.bindings_for("2b042").get(&ButtonId::HapticPanel) {
        Some(Binding::Gesture(map)) => {
            for dir in GestureDirection::ALL {
                assert_eq!(map.get(&dir), Some(&default_gesture_binding(dir)));
            }
        }
        other => panic!("expected the owner's materialized default map, got {other:?}"),
    }
    assert!(!cfg.is_gesture_mode("2b042", ButtonId::GestureButton));
}

#[test]
fn migration_replaces_a_hidpp_owners_single_with_the_default_map() {
    let cfg = loaded(
        3,
        vec![(
            "2b042",
            DeviceConfig {
                gesture_owner: Some(GestureOwner::Button(ButtonId::GestureButton)),
                bindings: bindings(vec![(
                    ButtonId::GestureButton,
                    Binding::Single(Action::CycleDpiPresets),
                )]),
                ..DeviceConfig::default()
            },
        )],
    );
    assert!(cfg.is_gesture_mode("2b042", ButtonId::GestureButton));
    match cfg.bindings_for("2b042").get(&ButtonId::GestureButton) {
        Some(Binding::Gesture(map)) => {
            assert_eq!(
                map.get(&GestureDirection::Click),
                Some(&default_gesture_binding(GestureDirection::Click)),
                "v3 dispatched the seeded default Click, not the stored Single"
            );
        }
        other => panic!("expected the owner's materialized default map, got {other:?}"),
    }
}

#[test]
fn migration_stashes_dormant_maps_for_re_enabling() {
    let mut cfg = loaded(3, vec![("2b042", owned_by_middle_click())]);
    assert!(!cfg.is_gesture_mode("2b042", ButtonId::GestureButton));

    cfg.set_gesture_mode("2b042", ButtonId::GestureButton, true);
    match cfg.bindings_for("2b042").get(&ButtonId::GestureButton) {
        Some(Binding::Gesture(map)) => {
            assert_eq!(
                map.get(&GestureDirection::Up),
                Some(&Action::Copy),
                "the dormant map's arms come back on re-enable"
            );
        }
        other => panic!("expected the stashed dormant map restored, got {other:?}"),
    }
}

#[test]
fn migration_infers_the_owner_for_pre_field_configs() {
    let cfg = loaded(
        2,
        vec![(
            "2b042",
            DeviceConfig {
                bindings: bindings(vec![(
                    ButtonId::Back,
                    Binding::Gesture(directions(vec![(GestureDirection::Up, Action::Copy)])),
                )]),
                ..DeviceConfig::default()
            },
        )],
    );
    assert!(cfg.is_gesture_mode("2b042", ButtonId::Back));
    assert!(!cfg.is_gesture_mode("2b042", ButtonId::GestureButton));
    assert_eq!(
        cfg.bindings_for("2b042").get(&ButtonId::GestureButton),
        Some(&Binding::Single(default_binding(ButtonId::GestureButton)))
    );
}

#[test]
fn gesture_state_roundtrips_through_shapes_without_the_owner_field() {
    let mut cfg = Config::default();
    cfg.set_gesture_mode("2b042", ButtonId::Back, true);
    cfg.set_gesture_mode("4082d", ButtonId::GestureButton, false);

    let mut parsed = cfg.clone();
    parsed.upgrade().expect("current schema");
    assert!(parsed.is_gesture_mode("2b042", ButtonId::Back));
    assert!(
        parsed.is_gesture_mode("2b042", ButtonId::GestureButton),
        "the dedicated button's default gesture mode is untouched by Back's promotion"
    );
    assert!(parsed.gesture_mode_buttons("4082d").is_empty());

    for key in ["2b042", "4082d"] {
        assert_eq!(cfg.devices.get(key).expect("an entry").gesture_owner, None);
    }
}

#[test]
fn migrating_v4_drops_the_transport_prefix_from_direct_keys() {
    let mut config = file(
        4,
        vec![
            (
                "direct:046d:c08d:unit:6be9d300",
                DeviceConfig {
                    invert_scroll: true,
                    ..DeviceConfig::default()
                },
            ),
            (
                "receiver:82839805:slot:1",
                DeviceConfig {
                    dpi: Some(Dpi::new(1600)),
                    ..DeviceConfig::default()
                },
            ),
        ],
    );
    config.selected_device = Some("direct:046d:c08d:unit:6be9d300".to_string());
    config.migrate_transport_scoped_keys();

    assert!(config.devices.contains_key("unit:6be9d300"));
    assert!(!config.devices.contains_key("direct:046d:c08d:unit:6be9d300"));
    assert_eq!(
        config.selected_device.as_deref(),
        Some("unit:6be9d300"),
        "the selection follows the key"
    );
    assert!(
        config
            .devices
            .get("unit:6be9d300")
            .expect("an entry")
            .links
            .contains_key("direct:046d:c08d"),
        "the route it came from is remembered, not discarded"
    );
    assert!(
        config.devices.contains_key("receiver:82839805:slot:1"),
        "receiver entries are left for runtime adoption"
    );
}

#[test]
fn migrating_two_direct_routes_of_one_device_folds_instead_of_dropping_one() {
    let mut config = file(
        4,
        vec![
            (
                "direct:046d:b034:unit:6be9d300",
                DeviceConfig {
                    dpi: Some(Dpi::new(1600)),
                    invert_scroll: true,
                    bindings: bindings(vec![(
                        ButtonId::Back,
                        Binding::Single(Action::BrowserBack),
                    )]),
                    ..DeviceConfig::default()
                },
            ),
            (
                "direct:046d:c08d:unit:6be9d300",
                DeviceConfig {
                    dpi: Some(Dpi::new(800)),
                    bindings: bindings(vec![(
                        ButtonId::Forward,
                        Binding::Single(Action::BrowserForward),
                    )]),
                    ..DeviceConfig::default()
                },
            ),
        ],
    );
    config.migrate_transport_scoped_keys();

    assert_eq!(config.devices.len(), 1, "one device, one entry");
    let device = config.devices.get("unit:6be9d300").expect("an entry");
    assert_eq!(
        device.bindings.len(),
        2,
        "both routes' bindings survive: {:?}",
        device.bindings
    );
    assert_eq!(
        device.dpi,
        Some(Dpi::new(1600)),
        "one value stays canonical"
    );
    assert_eq!(
        device
            .links
            .get("direct:046d:c08d")
            .expect("a link")
            .overrides
            .dpi,
        Some(Dpi::new(800)),
        "the other survives as an override on the route it was set for"
    );
    assert!(
        device.links.contains_key("direct:046d:b034"),
        "both routes are indexed: {:?}",
        device.links
    );
}

#[test]
fn migrating_rewrites_host_switch_targets() {
    let mut config = file(
        4,
        vec![(
            "receiver:82839805:slot:2",
            DeviceConfig {
                host_switch_targets: vec!["direct:046d:c08d:unit:6be9d300".to_string()],
                ..DeviceConfig::default()
            },
        )],
    );
    config.migrate_transport_scoped_keys();
    assert_eq!(
        config
            .devices
            .get("receiver:82839805:slot:2")
            .expect("an entry")
            .host_switch_targets,
        vec!["unit:6be9d300".to_string()],
    );
}

#[test]
fn a_v4_file_with_no_direct_entries_is_untouched() {
    let mut config = file(
        4,
        vec![(
            "receiver:82839805:slot:1",
            DeviceConfig {
                dpi: Some(Dpi::new(1600)),
                ..DeviceConfig::default()
            },
        )],
    );
    let before = config.devices.clone();
    config.migrate_transport_scoped_keys();
    assert_eq!(config.devices.len(), before.len());
    assert!(config.devices.contains_key("receiver:82839805:slot:1"));
}

#[test]
fn migrating_v4_drops_the_transport_prefix_from_serial_keyed_direct_keys() {
    let mut config = file(
        4,
        vec![(
            "direct:046d:c08d:serial:abc123",
            DeviceConfig {
                invert_scroll: true,
                ..DeviceConfig::default()
            },
        )],
    );
    config.migrate_transport_scoped_keys();

    assert!(config.devices.contains_key("serial:abc123"));
    assert!(!config.devices.contains_key("direct:046d:c08d:serial:abc123"));
    assert!(
        config
            .devices
            .get("serial:abc123")
            .expect("an entry")
            .links
            .contains_key("direct:046d:c08d"),
        "the route it came from is remembered, not discarded"
    );
}

#[test]
fn migrating_leaves_a_direct_key_with_no_physical_identity_untouched() {
    let mut config = file(
        4,
        vec![(
            "direct:046d:c08d:unit:00000000",
            DeviceConfig {
                invert_scroll: true,
                ..DeviceConfig::default()
            },
        )],
    );
    config.migrate_transport_scoped_keys();

    assert!(
        config.devices.contains_key("direct:046d:c08d:unit:00000000"),
        "a non-physical identity is left keyed exactly as it was loaded"
    );
    assert!(!config.devices.contains_key("unit:00000000"));
}

#[test]
fn touchpad_trigger_rejects_directional_binding() {
    let raw = RawDeviceConfig {
        device: DeviceConfig {
            bindings: bindings(vec![(
                ButtonId::TouchpadThreeFingerSwipeUp,
                Binding::Gesture(directions(vec![(
                    GestureDirection::Up,
                    Action::MissionControl,
                )])),
            )]),
            ..DeviceConfig::default()
        },
        button_bindings: actions(vec![]),
        gesture_bindings: directions(vec![]),
    };
    let error: DeviceConfigError =
        DeviceConfig::try_from(raw).expect_err("touchpad triggers are one-shot actions");

    assert!(
        error
            .message()
            .contains("3-Finger Swipe Up must have a single-action binding"),
        "{}",
        error.message()
    );
}

#[test]
fn a_key_behind_two_direct_routes_moves_in_the_order_of_the_keys() {
    let outer = "direct:1:1:direct:2:2:unit:6be9d300";
    let inner = "direct:2:2:unit:6be9d300";
    let mut config = file(
        4,
        vec![
            (outer, DeviceConfig { dpi: Some(Dpi::new(800)), ..DeviceConfig::default() }),
            (inner, DeviceConfig { invert_scroll: true, ..DeviceConfig::default() }),
        ],
    );
    config.migrate_transport_scoped_keys();

    // The outer key comes first: its entry joins the inner one and moves on.
    assert_eq!(config.devices.len(), 1);
    let device = config.devices.get("unit:6be9d300").expect("an entry");
    assert!(device.links.contains_key("direct:1:1"));
    assert!(device.links.contains_key("direct:2:2"));
    assert_eq!(device.links.len(), 2);

    // Where the inner key comes first, the outer one's entry takes its place.
    let outer = "direct:3:3:direct:2:2:unit:6be9d300";
    let mut config = file(
        4,
        vec![
            (outer, DeviceConfig::default()),
            (inner, DeviceConfig::default()),
        ],
    );
    config.selected_device = Some(outer.to_string());
    config.migrate_transport_scoped_keys();
    assert!(config.devices.contains_key("unit:6be9d300"));
    assert!(config.devices.contains_key(inner));
    assert_eq!(config.selected_device.as_deref(), Some(inner));
}

#[test]
fn switched_along_devices_follow_a_renamed_one() {
    let mut config = file(
        4,
        vec![
            ("direct:1:1:unit:aabbccdd", DeviceConfig::default()),
            (
                "direct:2:2:unit:eeff0011",
                DeviceConfig {
                    host_switch_targets: vec!["direct:1:1:unit:aabbccdd".to_string()],
                    ..DeviceConfig::default()
                },
            ),
        ],
    );
    config.migrate_transport_scoped_keys();
    assert_eq!(
        config.devices.get("unit:eeff0011").expect("an entry").host_switch_targets,
        vec!["unit:aabbccdd".to_string()]
    );
}

#[test]
fn a_swiping_button_per_device_is_obsolete_in_the_current_layout() {
    let owned = || vec![("2b042", owned_by_middle_click())];
    assert!(file(SCHEMA_VERSION, owned()).holds_obsolete_fields());
    assert!(!file(3, owned()).holds_obsolete_fields());
    assert!(!file(SCHEMA_VERSION, vec![("2b042", DeviceConfig::default())]).holds_obsolete_fields());
}
