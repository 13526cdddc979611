//! The scripted agent.

use openlogi::device::{BatteryLevel, BatteryStatus, DeviceKind, DeviceRoute};
use openlogi::hid::{
    Dpi, DpiCapabilities, NoResolution, SmartShift, SmartShiftAutoDisengage, SmartShiftThreshold,
    TunableTorque, WheelMode,
};
use openlogi::mock::inventory::{
    bolt_inventory, camera_active, direct_inventory, draining_battery, foreground, light_route,
    settings_key, standalone_light, DIRECT_PID, KEYBOARD_SLOT, LITRA_GLOW_PRODUCT_ID,
    LOGITECH_VENDOR_ID, MOUSE_SLOT, OFFLINE_SLOT, TOUCHPAD_SLOT,
};
use openlogi::mock::observation::{agent_status, snapshot_of, Observation};
use openlogi::mock::state::{
    set_light, FoundDevice, PairingCommandError, PairingPhase, PairingUpdate, PasskeyMethod, State,
    WriteError,
};

const CANDIDATE: [u8; 6] = [0xe0, 0x15, 0x27, 0x42, 0x91, 0x3a];

fn state() -> State {
    State::new(SmartShiftThreshold { value: 16 })
}

fn bolt(slot: u8) -> DeviceRoute {
    DeviceRoute::Bolt {
        receiver_uid: "MOCK-BOLT-01".to_string(),
        slot,
    }
}

fn direct(product_id: u16) -> DeviceRoute {
    DeviceRoute::Direct {
        vendor_id: LOGITECH_VENDOR_ID,
        product_id,
    }
}

fn candidate() -> FoundDevice {
    FoundDevice {
        address: CANDIDATE,
        name: "ERGO K860".to_string(),
    }
}

#[test]
fn the_battery_drains_by_the_minute_and_starts_again() {
    assert_eq!(draining_battery(0).percentage, 80);
    assert_eq!(draining_battery(59).percentage, 80);
    assert_eq!(draining_battery(60).percentage, 79);
    assert_eq!(draining_battery(0).level, BatteryLevel::Good);
    assert_eq!(draining_battery(54 * 60).level, BatteryLevel::Good);
    assert_eq!(draining_battery(55 * 60).percentage, 25);
    assert_eq!(draining_battery(55 * 60).level, BatteryLevel::Low);
    assert_eq!(draining_battery(60 * 60).percentage, 20);
    assert_eq!(draining_battery(61 * 60).percentage, 80);
    assert_eq!(draining_battery(u64::MAX).status, BatteryStatus::Discharging);
}

#[test]
fn the_receiver_has_four_devices_and_one_stands_alone() {
    let battery = draining_battery(0);
    let inventory = bolt_inventory(battery);
    assert_eq!(inventory.receiver.product_id, 0xc548);
    assert_eq!(
        inventory
            .paired
            .iter()
            .map(|device| (device.slot, device.kind, device.online))
            .collect::<Vec<_>>(),
        vec![
            (1, DeviceKind::Mouse, true),
            (2, DeviceKind::Mouse, false),
            (3, DeviceKind::Keyboard, true),
            (4, DeviceKind::Touchpad, true),
        ]
    );
    assert_eq!(inventory.paired[0].battery, Some(battery));
    assert_eq!(
        inventory.paired[0].model_info.as_ref().map(|model| (model.unit_id, model.model_ids)),
        Some(([1, 2, 3, 4], [0xb034, 0x4082, 0]))
    );
    assert!(inventory.paired[2].capabilities.expect("probed").lighting);
    assert!(inventory.paired[3].capabilities.expect("probed").touchpad_raw_xy);
    let alone = direct_inventory();
    assert_eq!(alone.paired.len(), 1);
    assert_eq!(alone.paired[0].slot, 0xff);
    assert_eq!(alone.receiver.unique_id, None);
    assert_eq!(standalone_light().driver_id, "litra");
    assert_eq!(
        standalone_light()
            .light_capabilities
            .and_then(|light| light.temperature)
            .map(|range| (range.min, range.max, range.step)),
        Some((2700, 6500, 100))
    );
}

#[test]
fn the_camera_toggles_every_half_minute() {
    assert!(!camera_active(29));
    assert!(camera_active(30));
    assert!(camera_active(59));
    assert!(!camera_active(60));
}

#[test]
fn another_application_comes_to_the_front_every_ten_seconds() {
    let ids = |seconds| {
        let apps = foreground(seconds);
        (
            apps.current.expect("one is in front").id,
            apps.recent.into_iter().map(|app| app.display_name).collect::<Vec<_>>(),
        )
    };
    assert_eq!(
        ids(0),
        (
            "com.apple.Safari".to_string(),
            vec!["Safari".to_string(), "Finder".to_string(), "Code".to_string()]
        )
    );
    assert_eq!(
        ids(19),
        (
            "com.microsoft.VSCode".to_string(),
            vec!["Code".to_string(), "Safari".to_string(), "Finder".to_string()]
        )
    );
    assert_eq!(ids(30).0, "com.apple.Safari");
}

#[test]
fn routes_lead_to_scripted_devices_only() {
    assert_eq!(settings_key(&bolt(7)), Some(7));
    assert_eq!(settings_key(&direct(DIRECT_PID)), Some(0xff));
    assert_eq!(settings_key(&direct(LITRA_GLOW_PRODUCT_ID)), None);
    assert_eq!(
        settings_key(&DeviceRoute::Bolt {
            receiver_uid: "OTHER".to_string(),
            slot: 1
        }),
        None
    );
}

#[test]
fn a_resolution_is_set_to_the_nearest_and_read_back() {
    let mut state = state();
    let route = bolt(MOUSE_SLOT);
    assert_eq!(state.read_dpi(&route).expect("a mouse").current, Dpi::new(1600));
    assert_eq!(state.set_dpi(&route, Dpi::new(1632)), Ok(()));
    assert_eq!(state.read_dpi(&route).expect("a mouse").current, Dpi::new(1650));
    assert_eq!(state.set_dpi(&route, Dpi::new(1)), Ok(()));
    assert_eq!(state.read_dpi(&route).expect("a mouse").current, Dpi::new(200));
    assert_eq!(state.set_dpi(&route, Dpi::new(60000)), Ok(()));
    assert_eq!(state.read_dpi(&route).expect("a mouse").current, Dpi::new(8000));
    assert_eq!(
        state.read_dpi(&direct(DIRECT_PID)).expect("a mouse").current,
        Dpi::new(1000),
        "another device is left alone"
    );
    assert_eq!(
        state.read_dpi(&direct(DIRECT_PID)).expect("a mouse").capabilities.values().len(),
        37
    );
    assert_eq!(
        state.set_dpi(&bolt(KEYBOARD_SLOT), Dpi::new(800)),
        Err(WriteError::FeatureUnsupported { feature_hex: 0x2201 })
    );
    assert_eq!(
        state.set_dpi(&bolt(9), Dpi::new(800)),
        Err(WriteError::DeviceNotFound)
    );
}

#[test]
fn a_device_takes_at_least_one_resolution() {
    assert_eq!(DpiCapabilities::new(vec![]), Err(NoResolution));
    let capabilities = DpiCapabilities::new(vec![400, 800]).expect("two");
    assert_eq!(capabilities.nearest(Dpi::new(600)), Dpi::new(400));
    assert_eq!(capabilities.nearest(Dpi::new(601)), Dpi::new(800));
}

#[test]
fn the_wheel_is_set_and_read_back() {
    let mut state = state();
    let free = SmartShift {
        mode: WheelMode::FreeSpin,
        auto_disengage: SmartShiftAutoDisengage::Never,
        tunable_torque: None,
    };
    assert_eq!(
        state.read_smartshift(&bolt(MOUSE_SLOT)),
        Ok(SmartShift {
            mode: WheelMode::Ratchet,
            auto_disengage: SmartShiftAutoDisengage::Threshold(SmartShiftThreshold { value: 16 }),
            tunable_torque: Some(TunableTorque::try_new(50).expect("valid torque")),
        })
    );
    assert_eq!(state.set_smartshift(&bolt(MOUSE_SLOT), free), Ok(()));
    assert_eq!(state.read_smartshift(&bolt(MOUSE_SLOT)), Ok(free));
    assert_eq!(
        state.set_smartshift(&direct(DIRECT_PID), free),
        Err(WriteError::FeatureUnsupported { feature_hex: 0x2110 })
    );
    assert_eq!(
        state.read_smartshift(&bolt(OFFLINE_SLOT)),
        Err(WriteError::FeatureUnsupported { feature_hex: 0x2110 })
    );
}

#[test]
fn only_the_keyboard_has_lighting_and_only_the_light_is_a_light() {
    let state = state();
    assert_eq!(state.set_lighting(&bolt(KEYBOARD_SLOT)), Ok(()));
    assert_eq!(
        state.set_lighting(&bolt(TOUCHPAD_SLOT)),
        Err(WriteError::FeatureUnsupported { feature_hex: 0x8070 })
    );
    assert_eq!(set_light(&light_route()), Ok(()));
    assert_eq!(set_light(&bolt(1)), Err(WriteError::DeviceNotFound));
}

#[test]
fn pairing_runs_from_search_to_a_paired_keyboard() {
    let mut state = state();
    let (id, update) = state.start_pairing().expect("nothing is live");
    assert_eq!((id, update), (0, PairingUpdate::Searching));
    assert_eq!(state.start_pairing(), Err(PairingCommandError::AlreadyActive));
    assert_eq!(state.pair_device(CANDIDATE), Err(PairingCommandError::UnknownDevice));
    assert_eq!(state.discover(id), Some(PairingUpdate::DeviceFound(candidate())));
    assert_eq!(state.phase, Some(PairingPhase::Found(vec![candidate()])));
    assert_eq!(state.pair_device([0; 6]), Err(PairingCommandError::UnknownDevice));
    let (id, name) = state.pair_device(CANDIDATE).expect("it was found");
    assert_eq!(state.phase, Some(PairingPhase::Pairing));
    assert_eq!(
        state.ask_passkey(id),
        Some(PairingUpdate::Passkey(PasskeyMethod::Keyboard("482913".to_string())))
    );
    assert_eq!(
        state.finish_pairing(id, &name),
        Some(PairingUpdate::Paired { slot: 5 })
    );
    assert_eq!(state.phase, Some(PairingPhase::Paired { slot: 5 }));
    assert_eq!(state.pair_device(CANDIDATE), Err(PairingCommandError::NoActiveSession));

    let inventory = state.render_inventory(0);
    let keyboard = inventory[0].paired.last().expect("it joined the receiver");
    assert_eq!(keyboard.codename.as_deref(), Some("ERGO K860"));
    assert_eq!((keyboard.slot, keyboard.kind), (5, DeviceKind::Keyboard));
    assert_eq!(
        state.set_lighting(&bolt(5)),
        Err(WriteError::FeatureUnsupported { feature_hex: 0x8070 })
    );
    assert_eq!(state.cancel_pairing(), None);
    assert_eq!(state.phase, None);
}

#[test]
fn the_steps_of_a_cancelled_session_do_nothing() {
    let mut state = state();
    let (old, _) = state.start_pairing().expect("nothing is live");
    assert_eq!(state.cancel_pairing(), Some(PairingUpdate::Cancelled));
    let (new, _) = state.start_pairing().expect("nothing is live");
    assert_ne!(old, new);
    assert_eq!(state.discover(old), None);
    assert_eq!(state.ask_passkey(old), None);
    assert_eq!(state.finish_pairing(old, "ERGO K860"), None);
    assert_eq!(state.phase, Some(PairingPhase::Searching));
    assert!(state.pairing_session(new));
    assert_eq!(state.render_inventory(0)[0].paired.len(), 4);
}

#[test]
fn slots_stop_at_the_last() {
    let mut state = state();
    state.next_slot = 255;
    assert_eq!(state.pair_scripted("A"), 255);
    assert_eq!(state.pair_scripted("B"), 255);
}

#[test]
fn a_generation_is_counted_only_where_something_changed() {
    let state = state();
    let look = |seconds| snapshot_of(&state, agent_status(true, 3, "0.6.6"), seconds);
    let mut served = Observation::first(look(0));
    assert_eq!(served.generation, 1);
    assert_eq!(served.snapshot.status.agent_version, "0.6.6-mock");
    served.refresh(look(9));
    assert_eq!(served.generation, 1);
    assert!(!served.answers(1, false));
    assert!(served.answers(1, true));
    served.refresh(look(10));
    assert_eq!(served.generation, 2);
    assert!(served.answers(1, false));
    served.refresh(look(10));
    assert_eq!(served.generation, 2);
}
