//! Putting touchpads back at start.

use openlogi::agent::startup::{touchpad_recovery_targets, TouchpadRecoveryTarget};
use openlogi::device::{
    Capabilities, DeviceInventory, DeviceKind, DeviceModelInfo, DeviceRoute, DeviceTransports,
    PairedDevice, ReceiverInfo, DIRECT_DEVICE_INDEX,
};

fn device(serial: &str, slot: u8, online: bool, touchpad_raw_xy: bool) -> PairedDevice {
    PairedDevice {
        slot,
        codename: Some(serial.to_string()),
        wpid: Some(0xb123),
        kind: DeviceKind::Touchpad,
        online,
        battery: None,
        model_info: Some(DeviceModelInfo {
            entity_count: 1,
            serial_number: Some(serial.to_string()),
            unit_id: [slot, 2, 3, 4],
            transports: DeviceTransports::default(),
            model_ids: [0xb123, 0, 0],
            extended_model_id: 1,
        }),
        capabilities: Some(Capabilities {
            touchpad_raw_xy,
            ..Capabilities::default()
        }),
    }
}

#[test]
fn startup_recovery_targets_only_pending_online_probed_touchpads() {
    let casa = device("CASA-1", 1, true, true);
    let duplicate_casa = device("casa-1", 2, true, true);
    let unrelated_touchpad = device("other", 3, true, true);
    let unsupported = device("unsupported", 4, true, false);
    let offline = device("offline", 5, false, true);
    let inventory = DeviceInventory {
        receiver: ReceiverInfo {
            name: "Logi Bolt Receiver".to_string(),
            vendor_id: 0x046d,
            product_id: 0xc548,
            unique_id: Some("receiver-1".to_string()),
        },
        paired: vec![
            casa,
            duplicate_casa,
            unrelated_touchpad,
            unsupported,
            offline,
        ],
    };
    let pending = vec![
        "serial:casa-1".to_string(),
        "serial:unsupported".to_string(),
        "serial:offline".to_string(),
    ];

    assert_eq!(
        touchpad_recovery_targets(&vec![inventory], &pending),
        vec![TouchpadRecoveryTarget {
            route: DeviceRoute::Bolt {
                receiver_uid: "receiver-1".to_string(),
                slot: 1,
            },
            journal_id: "serial:casa-1".to_string(),
        }]
    );
}

#[test]
fn startup_recovery_without_pending_records_has_no_targets() {
    let inventory = DeviceInventory {
        receiver: ReceiverInfo {
            name: "Casa Touch".to_string(),
            vendor_id: 0x046d,
            product_id: 0xb123,
            unique_id: None,
        },
        paired: vec![device(
            "casa-1",
            DIRECT_DEVICE_INDEX,
            true,
            true,
        )],
    };

    assert!(touchpad_recovery_targets(&vec![inventory], &Vec::new()).is_empty());
}

#[test]
fn a_touchpad_that_shows_up_twice_is_put_back_on_its_first_route() {
    let bolt = |uid: &str, slot: u8| DeviceInventory {
        receiver: ReceiverInfo {
            name: "Bolt".to_string(),
            vendor_id: 0x046d,
            product_id: 0xc548,
            unique_id: Some(uid.to_string()),
        },
        paired: vec![
            device("casa-1", slot, false, true),
            device("casa-1", slot + 1, true, true),
        ],
    };
    let pending = vec!["serial:casa-1".to_string()];

    assert_eq!(
        touchpad_recovery_targets(&vec![bolt("one", 1), bolt("two", 3)], &pending),
        vec![TouchpadRecoveryTarget {
            route: DeviceRoute::Bolt {
                receiver_uid: "one".to_string(),
                slot: 2,
            },
            journal_id: "serial:casa-1".to_string(),
        }]
    );
}
