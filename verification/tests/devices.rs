//! Devices, what is restored on them, and lights.

use openlogi::agent::capture_plan::CaptureSessionMode;
use openlogi::agent::devices::{
    build_devices, capture_plan_for, configured_wheel_mode, host_switch_links, pick_current,
    AgentDevice, InventoryHealth,
};
use openlogi::agent::lights::LightAutomation;
use openlogi::agent::reapply::{
    any_device_needs_capture_rearm, plan_reapply, reapply_targets, ReapplyPlan,
    VOLATILE_REAPPLY_CONFIRM_RETRIES,
};
use openlogi::config::device::{DeviceConfig, LinkConfig};
use openlogi::config::settings::LightSettings;
use openlogi::config::Config;
use openlogi::device::{
    Capabilities, DeviceInventory, DeviceKind, DeviceModelInfo, DeviceRoute, DeviceTransports,
    LightCapabilities, PairedDevice, RawDeviceAddress, ReceiverInfo, StandaloneDevice,
    DIRECT_DEVICE_INDEX,
};
use openlogi::device_order::{DeviceIdentity, DeviceStableId};
use openlogi::hid::{Dpi, ScrollResolution};
use openlogi::ordered::OrderedMap;

fn repeats(entries: Vec<(String, u32)>) -> OrderedMap<String, u32> {
    let mut map = OrderedMap::new();
    for (key, count) in entries {
        map.insert(key, count);
    }
    map
}

fn dev(key: &str, slot: u8, online: bool) -> AgentDevice {
    AgentDevice {
        config_key: key.to_string(),
        model_key: key.to_string(),
        route: Some(DeviceRoute::Bolt {
            receiver_uid: "AA00".to_string(),
            slot,
        }),
        slot,
        serial: None,
        unit_id: [0; 4],
        capabilities: None,
        kind: DeviceKind::Mouse,
        light_capabilities: None,
        online,
    }
}

fn raw_touchpad_dev(key: &str, slot: u8, online: bool) -> AgentDevice {
    let mut device = dev(key, slot, online);
    device.serial = Some("casa-1".to_string());
    device.capabilities = Some(Capabilities {
        touchpad_raw_xy: true,
        ..Capabilities::default()
    });
    device
}

fn raw_light_dev(key: &str) -> AgentDevice {
    AgentDevice {
        config_key: key.to_string(),
        model_key: "Litra Glow".to_string(),
        route: Some(DeviceRoute::RawHid {
            vendor_id: 0x046d,
            product_id: 0xc900,
            usage_page: 0xff43,
            usage_id: 0x0202,
            identity: "serial:glow-1".to_string(),
        }),
        slot: DIRECT_DEVICE_INDEX,
        serial: Some("glow-1".to_string()),
        unit_id: [0; 4],
        capabilities: None,
        kind: DeviceKind::Light,
        light_capabilities: Some(LightCapabilities {
            power: true,
            ..LightCapabilities::default()
        }),
        online: true,
    }
}

fn direct_inventory(serial_number: Option<&str>, unit_id: [u8; 4]) -> DeviceInventory {
    DeviceInventory {
        receiver: ReceiverInfo {
            name: "MX Master 3S".to_string(),
            vendor_id: 0x046d,
            product_id: 0xb023,
            unique_id: None,
        },
        paired: vec![PairedDevice {
            slot: DIRECT_DEVICE_INDEX,
            codename: Some("MX Master 3S".to_string()),
            wpid: None,
            kind: DeviceKind::Mouse,
            online: true,
            battery: None,
            model_info: Some(DeviceModelInfo {
                entity_count: 1,
                serial_number: serial_number.map(str::to_string),
                unit_id,
                transports: DeviceTransports::default(),
                model_ids: [0xb034, 0, 0],
                extended_model_id: 2,
            }),
            capabilities: Some(Capabilities::default()),
        }],
    }
}

fn bolt_inventory(unit_id: [u8; 4]) -> DeviceInventory {
    DeviceInventory {
        receiver: ReceiverInfo {
            name: "Bolt Receiver".to_string(),
            vendor_id: 0x046d,
            product_id: 0xc548,
            unique_id: Some("82839805".to_string()),
        },
        paired: vec![PairedDevice {
            slot: 1,
            codename: Some("MX Master 3S".to_string()),
            wpid: None,
            kind: DeviceKind::Mouse,
            online: true,
            battery: None,
            model_info: Some(DeviceModelInfo {
                entity_count: 1,
                serial_number: None,
                unit_id,
                transports: DeviceTransports::default(),
                model_ids: [0xb034, 0, 0],
                extended_model_id: 2,
            }),
            capabilities: Some(Capabilities::default()),
        }],
    }
}

#[test]
fn build_devices_still_finds_settings_left_under_a_pre_upgrade_receiver_key() {
    // The agent autostarts at login and never adopts a route — only the GUI
    // does, and the GUI is launched by hand. The schema-4 -> 5 migration
    // deliberately does not rename `receiver:` keys, so if this resolved
    // straight to `unit:6be9d300` every receiver-paired device would apply
    // pure defaults from the moment of the upgrade until the user next
    // happened to open the settings window.
    let mut config = Config::default();
    config.set_dpi("receiver:82839805:slot:1", Dpi::new(3200));

    let devices = build_devices(&config, &vec![bolt_inventory([0x6b, 0xe9, 0xd3, 0x00])], &vec![]);
    let device = devices.first().expect("one paired device");
    assert_eq!(device.config_key, "receiver:82839805:slot:1");
    assert_eq!(
        config
            .devices
            .get(device.config_key.as_str())
            .map(|entry| entry.effective_dpi(&device.stable_id().route_key())),
        Some(Some(Dpi::new(3200))),
        "the DPI the agent re-applies on reconnect is still reachable"
    );
}

#[test]
fn build_devices_skips_transient_zero_unit_direct_identity() {
    assert!(build_devices(&Config::default(), &vec![direct_inventory(None, [0; 4])], &vec![]).is_empty());

    let devices = build_devices(
        &Config::default(),
        &vec![direct_inventory(Some("ABC123"), [0; 4])],
        &vec![],
    );
    assert_eq!(devices.len(), 1);
    // Bare identity, route-independent: the same key the GUI resolves for
    // this device regardless of which route it's reached by.
    assert_eq!(devices[0].config_key, "serial:abc123");
}

#[test]
fn build_devices_keeps_serial_backed_standalone_lights_beside_hidpp_devices() {
    let light_capabilities = LightCapabilities {
        power: true,
        ..LightCapabilities::default()
    };
    let standalone = StandaloneDevice {
        address: RawDeviceAddress {
            vendor_id: 0x046d,
            product_id: 0xc900,
            usage_page: 0xff43,
            usage_id: 0x0202,
            identity: "serial:glow-1".to_string(),
        },
        display_name: "Litra Glow".to_string(),
        manufacturer: Some("Logitech".to_string()),
        serial_number: Some("Glow-1".to_string()),
        unit_id: [0; 4],
        kind: DeviceKind::Light,
        online: true,
        capabilities: None,
        light_capabilities: Some(light_capabilities),
        driver_id: "litra".to_string(),
        registry_model_id: Some("8c900".to_string()),
    };

    let devices = build_devices(
        &Config::default(),
        &vec![direct_inventory(Some("ABC123"), [0; 4])],
        &vec![standalone],
    );

    assert_eq!(devices.len(), 2);
    let Some(light) = devices
        .iter()
        .find(|device| device.model_key == "Litra Glow")
    else {
        panic!("standalone light should be retained");
    };
    // Bare identity, route-independent, same as above.
    assert_eq!(light.config_key, "serial:glow-1");
    assert_eq!(light.light_capabilities, Some(light_capabilities));
    assert!(matches!(light.route, Some(DeviceRoute::RawHid { .. })));
}

/// A cabled direct device whose own identity wasn't readable — the shape an
/// offline probe reports, or a device seen for the first time.
fn direct_stable_id() -> DeviceStableId {
    DeviceStableId::Direct {
        vendor_id: 0x046d,
        product_id: 0xc08d,
        identity: DeviceIdentity::Unit([0; 4]),
    }
}


#[test]
fn the_agent_reads_settings_under_the_device_key() {
    // The agent must look under the same key the GUI wrote, or a cabled
    // mouse silently gets no settings applied.
    let mut config = Config::default();
    let mut device = DeviceConfig::default();
    device
        .links
        .insert("direct:046d:c08d".to_string(), LinkConfig::default());
    config.devices.insert("unit:6be9d300".to_string(), device);
    config.set_dpi("unit:6be9d300", Dpi::new(1600));

    let key = config
        .resolve_device_key(&direct_stable_id(), None)
        .expect("resolves through the indexed route");
    assert_eq!(config.devices.get(key.as_str()).expect("an entry").dpi, Some(Dpi::new(1600)));
}

#[test]
fn standalone_selection_never_replaces_the_hidpp_capture_target() {
    let devices = vec![raw_light_dev("light"), dev("mouse", 1, true)];

    assert_eq!(pick_current(&devices, Some("light")), 1);
    assert_eq!(pick_current(&devices, None), 1);
}

#[test]
fn runtime_selection_falls_back_from_saved_offline_device_to_online_device() {
    let devices = vec![dev("saved", 1, false), dev("online", 2, true)];

    assert_eq!(pick_current(&devices, Some("saved")), 1);
}

#[test]
fn runtime_selection_keeps_saved_device_when_it_is_online() {
    let devices = vec![dev("other", 1, true), dev("saved", 2, true)];

    assert_eq!(pick_current(&devices, Some("saved")), 1);
}

#[test]
fn runtime_selection_keeps_saved_device_when_all_devices_are_offline() {
    let devices = vec![dev("other", 1, false), dev("saved", 2, false)];

    assert_eq!(pick_current(&devices, Some("saved")), 1);
}

#[test]
fn configured_wheel_mode_gates_resolution_and_inversion_independently() {
    let mut config = Config::default();
    config.set_scroll_resolution("a", Some(ScrollResolution::Low));
    config.set_invert_scroll("a", true);
    let mut device = dev("a", 1, true);

    device.capabilities = Some(Capabilities {
        hires_wheel: true,
        scroll_inversion: false,
        ..Capabilities::default()
    });
    assert_eq!(
        configured_wheel_mode(&config, &device),
        (Some(ScrollResolution::Low), None)
    );

    device.capabilities = Some(Capabilities {
        hires_wheel: false,
        scroll_inversion: true,
        ..Capabilities::default()
    });
    assert_eq!(configured_wheel_mode(&config, &device), (None, Some(true)));

    device.capabilities = None;
    assert_eq!(configured_wheel_mode(&config, &device), (None, None));
}

#[test]
fn configured_wheel_mode_leaves_unset_resolution_unmanaged() {
    let config = Config::default();
    let mut device = dev("a", 1, true);
    device.capabilities = Some(Capabilities {
        hires_wheel: true,
        scroll_inversion: false,
        ..Capabilities::default()
    });

    assert_eq!(configured_wheel_mode(&config, &device), (None, None));
}

#[test]
fn host_switch_links_keep_sleeping_targets_but_require_online_keyboard() {
    let mut config = Config::default();
    config.devices.insert(
        "keyboard".to_string(),
        DeviceConfig {
            host_switch_targets: vec![
                "mouse".to_string(),
                "offline".to_string(),
                "missing".to_string(),
            ],
            ..DeviceConfig::default()
        },
    );
    let devices = vec![
        dev("keyboard", 1, true),
        dev("mouse", 2, true),
        dev("offline", 3, false),
    ];

    let links = host_switch_links(&config, &devices);

    assert_eq!(links.len(), 1);
    assert_eq!(
        links[0].keyboard,
        DeviceRoute::Bolt {
            receiver_uid: "AA00".to_string(),
            slot: 1,
        }
    );
    assert_eq!(
        links[0].targets,
        vec![
            DeviceRoute::Bolt {
                receiver_uid: "AA00".to_string(),
                slot: 2,
            },
            DeviceRoute::Bolt {
                receiver_uid: "AA00".to_string(),
                slot: 3,
            }
        ]
    );
}

#[test]
fn reapply_targets_new_arrivals_and_transitions() {
    // First sighting of an online device → re-apply.
    assert_eq!(reapply_targets(&vec![], &vec![dev("a", 1, true)], false), vec![0]);
    // Steady state → nothing.
    assert!(reapply_targets(&vec![dev("a", 1, true)], &vec![dev("a", 1, true)], false).is_empty());
    // Replug under a new route (same key, new slot) → re-apply.
    assert_eq!(
        reapply_targets(&vec![dev("a", 1, true)], &vec![dev("a", 2, true)], false),
        vec![0]
    );
    // Waking from device sleep (offline → online) → re-apply.
    assert_eq!(
        reapply_targets(&vec![dev("a", 1, false)], &vec![dev("a", 1, true)], false),
        vec![0]
    );
    // Going to sleep (online → offline) → nothing.
    assert!(reapply_targets(&vec![dev("a", 1, true)], &vec![dev("a", 1, false)], false).is_empty());
}

#[test]
fn reapply_targets_disambiguates_same_model_duplicates() {
    // Two devices can share a model key but are distinct physical units at
    // different Bolt slots, so they have distinct stable ids. A steady tick
    // with both already online must target NEITHER.
    let prev = vec![dev("dup", 1, true), dev("dup", 2, true)];
    let next = vec![dev("dup", 1, true), dev("dup", 2, true)];
    assert!(reapply_targets(&prev, &next, false).is_empty());
}

#[test]
fn reapply_targets_skip_offline_and_routeless_devices() {
    // A paired-but-asleep new arrival waits for its online transition —
    // writing now would only time out against a sleeping device.
    assert!(reapply_targets(&vec![], &vec![dev("a", 1, false)], false).is_empty());
    let routeless = AgentDevice {
        route: None,
        ..dev("b", 2, true)
    };
    assert!(reapply_targets(&vec![], &vec![routeless], false).is_empty());
}

#[test]
fn reapply_all_targets_every_online_device() {
    let prev = vec![dev("a", 1, true), dev("b", 2, false)];
    let next = vec![dev("a", 1, true), dev("b", 2, false)];
    // The post-wake snapshot looks identical to the pre-sleep one; the
    // flag still re-applies to the online device (and only that one).
    assert_eq!(reapply_targets(&prev, &next, true), vec![0]);
}

#[test]
fn receiver_reconnect_requests_capture_rearm() {
    let prev = vec![dev("selected", 1, false), dev("other", 2, true)];
    let next = vec![dev("selected", 1, true), dev("other", 2, true)];

    assert!(any_device_needs_capture_rearm(&prev, &next, false));
    assert!(!any_device_needs_capture_rearm(
        &vec![dev("other", 2, true)],
        &vec![dev("other", 2, true)],
        false
    ));
}

#[test]
fn system_wake_requests_capture_rearm_for_online_devices() {
    let devices = vec![dev("selected", 1, true), dev("other", 2, true)];

    assert!(any_device_needs_capture_rearm(&devices, &devices, true));
}

#[test]
fn steady_inventory_does_not_cycle_capture() {
    let devices = vec![dev("selected", 1, true)];

    assert!(!any_device_needs_capture_rearm(&devices, &devices, false));
}

#[test]
fn plan_reapply_retries_a_first_sighting_for_a_bounded_run() {
    // First sighting: applied now, queued for VOLATILE_REAPPLY_CONFIRM_RETRIES
    // confirming re-applies. A cold restart can leave the device still
    // booting, so the initial write and a single confirm need a retry run,
    // not a one-shot confirm.
    let ReapplyPlan { targets, followup } = plan_reapply(&vec![], &vec![dev("a", 1, true)], &repeats(vec![]), false);
    assert_eq!(targets, vec![0]);
    assert_eq!(
        followup,
        repeats(vec![("a".to_string(), VOLATILE_REAPPLY_CONFIRM_RETRIES)])
    );
    // Each steady tick after a first sighting re-applies once and decrements
    // the remaining retry budget — the device may still be booting.
    let prev = vec![dev("a", 1, true)];
    let followup_in = repeats(vec![("a".to_string(), VOLATILE_REAPPLY_CONFIRM_RETRIES)]);
    let ReapplyPlan { targets, followup } = plan_reapply(&prev, &prev, &followup_in, false);
    assert_eq!(targets, vec![0]);
    assert_eq!(
        followup,
        repeats(vec![("a".to_string(), VOLATILE_REAPPLY_CONFIRM_RETRIES - 1)])
    );
    // The budget exhausts: a last retry fires but queues no further ones.
    let followup_in = repeats(vec![("a".to_string(), 1)]);
    let ReapplyPlan { targets, followup } = plan_reapply(&prev, &prev, &followup_in, false);
    assert_eq!(targets, vec![0]);
    assert!(followup.is_empty());
    // Steady state after that: nothing.
    let ReapplyPlan { targets, .. } = plan_reapply(&prev, &prev, &repeats(vec![]), false);
    assert!(targets.is_empty());
}

#[test]
fn plan_reapply_transitions_are_not_queued_for_confirmation() {
    // A wake from device sleep re-applies once — the device was already
    // booted, so no confirming write is queued.
    let ReapplyPlan { targets, followup } = plan_reapply(
        &vec![dev("a", 1, false)],
        &vec![dev("a", 1, true)],
        &repeats(vec![]),
        false,
    );
    assert_eq!(targets, vec![0]);
    assert!(followup.is_empty());
}

#[test]
fn plan_reapply_wake_targets_get_a_confirm_retry_run() {
    // A system wake re-applies to every online device *and* queues the same
    // confirm-retry run a first sighting gets: post-wake, a receiver can
    // enumerate while its mouse link is still re-establishing, so the first
    // write can time out just like the cold-boot race (#527). Offline devices
    // stay untargeted and unqueued; they re-apply on their own transition.
    let prev = vec![dev("a", 1, true), dev("b", 2, false)];
    let ReapplyPlan { targets, followup } = plan_reapply(&prev, &prev, &repeats(vec![]), true);
    assert_eq!(targets, vec![0]);
    assert_eq!(
        followup,
        repeats(vec![("a".to_string(), VOLATILE_REAPPLY_CONFIRM_RETRIES)])
    );
    // The run then drains at the usual cadence on steady ticks.
    let ReapplyPlan { targets, followup } = plan_reapply(&prev, &prev, &followup, false);
    assert_eq!(targets, vec![0]);
    assert_eq!(
        followup,
        repeats(vec![("a".to_string(), VOLATILE_REAPPLY_CONFIRM_RETRIES - 1)])
    );
}

#[test]
fn plan_reapply_skips_a_followup_that_went_offline() {
    let prev = vec![dev("a", 1, true)];
    let ReapplyPlan { targets, followup } = plan_reapply(
        &prev,
        &vec![dev("a", 1, false)],
        &repeats(vec![("a".to_string(), VOLATILE_REAPPLY_CONFIRM_RETRIES)]),
        false,
    );
    assert!(targets.is_empty());
    assert!(followup.is_empty());
}

#[test]
fn empty_refresh_marks_inventory_ready() {
    let mut health = InventoryHealth::default();
    assert_eq!(health, InventoryHealth::Scanning);
    health.refresh_inventory();
    assert_eq!(health, InventoryHealth::Ready);
}

#[test]
fn unavailable_only_downgrades_a_pending_inventory() {
    let mut health = InventoryHealth::default();
    health.mark_inventory_unavailable();
    assert_eq!(health, InventoryHealth::Unavailable);
    health.refresh_inventory();
    assert_eq!(health, InventoryHealth::Ready);
    health.mark_inventory_unavailable();
    assert_eq!(health, InventoryHealth::Ready);
}

fn light(enabled: bool, auto_camera: bool, brightness: u8, kelvin: u16) -> LightSettings {
    LightSettings {
        enabled,
        auto_camera,
        brightness_percent: brightness,
        temperature_kelvin: Some(kelvin),
        color: None,
    }
}

#[test]
fn camera_automation_overrides_only_effective_power() {
    let key = "raw:046d:c900:ff43:0202:serial:glow";
    let mut config = Config::default();
    config.set_light(key, light(true, true, 65, 4600));
    let mut lights = LightAutomation::default();

    lights.set_camera_active(false);
    assert_eq!(
        lights.effective_light_settings(&config, key).map(|light| (
            light.enabled,
            light.brightness_percent,
            light.temperature_kelvin
        )),
        Some((false, 65, Some(4600)))
    );

    lights.set_camera_active(true);
    assert_eq!(
        lights.effective_light_settings(&config, key).map(|light| (
            light.enabled,
            light.brightness_percent,
            light.temperature_kelvin
        )),
        Some((true, 65, Some(4600)))
    );
}

#[test]
fn manual_camera_light_override_is_transient() {
    let key = "raw:046d:c900:ff43:0202:serial:glow";
    let route = DeviceRoute::Bolt {
        receiver_uid: "AA00".to_string(),
        slot: 1,
    };
    let mut config = Config::default();
    config.set_light(key, light(true, true, 65, 4600));
    let mut lights = LightAutomation::default();
    lights.set_camera_active(true);
    let mut device = dev(key, 1, true);
    device.light_capabilities = Some(LightCapabilities {
        power: true,
        ..LightCapabilities::default()
    });
    let devices = vec![AgentDevice {
        config_key: key.to_string(),
        route: Some(route.clone()),
        ..device
    }];

    assert!(lights.set_manual_light_power(&config, &devices, &route, false));
    assert_eq!(
        lights
            .effective_light_settings(&config, key)
            .map(|light| light.enabled),
        Some(false)
    );

    lights.set_camera_active(false);
    lights.set_camera_active(true);
    assert_eq!(
        lights
            .effective_light_settings(&config, key)
            .map(|light| light.enabled),
        Some(true)
    );
}

#[test]
fn config_reload_keeps_manual_override_for_parameter_edits() {
    let key = "raw:046d:c900:ff43:0202:serial:glow";
    let mut lights = LightAutomation::default();
    lights.set_camera_active(false);
    lights.manual_light_overrides.insert(key.to_string(), true);

    let mut updated = Config::default();
    updated.set_light(key, light(false, true, 80, 6500));
    lights.reload_config(&updated);

    assert_eq!(
        lights.effective_light_settings(&updated, key).map(|light| (
            light.enabled,
            light.brightness_percent,
            light.temperature_kelvin
        )),
        Some((true, 80, Some(6500)))
    );
    assert_eq!(lights.manual_light_overrides.get(key), Some(&true));
}

#[test]
fn config_reload_clears_override_when_camera_mode_changes() {
    let key = "raw:046d:c900:ff43:0202:serial:glow";
    let mut lights = LightAutomation::default();
    lights.manual_light_overrides.insert(key.to_string(), false);

    let mut updated = Config::default();
    updated.set_light(key, light(true, false, 65, 4600));
    lights.reload_config(&updated);

    assert_eq!(lights.manual_light_overrides.get(key), None);
    assert_eq!(
        lights
            .effective_light_settings(&updated, key)
            .map(|light| light.enabled),
        Some(true)
    );
}

#[test]
fn disabled_raw_touchpad_keeps_only_a_recovery_plan() {
    let mut config = Config::default();
    config.set_device_enabled("casa", false);

    let plan = capture_plan_for(&config, &raw_touchpad_dev("casa", 1, true), None, 0)
        .expect("a plan");

    assert_eq!(plan.session_mode, CaptureSessionMode::TouchpadRecovery);
    assert_eq!(plan.touchpad_journal_id.as_deref(), Some("serial:casa-1"));
}

#[test]
fn a_device_that_is_switched_off_has_no_plan() {
    let mut config = Config::default();
    config.set_device_enabled("mouse", false);
    assert!(capture_plan_for(&config, &dev("mouse", 1, true), None, 0).is_none());
    config.set_device_enabled("mouse", true);
    let plan = capture_plan_for(&config, &dev("mouse", 1, true), None, 7).expect("a plan");
    assert_eq!(plan.session_mode, CaptureSessionMode::Continuous);
    assert_eq!(plan.rearm_generation, 7);
}
