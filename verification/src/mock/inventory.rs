//! A scripted set of devices.
//!
//! One receiver with a mouse, a mouse that sleeps, a keyboard and a touchpad,
//! one mouse without a receiver, and one standalone light.

use vstd::prelude::*;
use vstd::string::StrSliceExecFns;

use crate::device::{
    route_in, BatteryInfo, BatteryLevel, BatteryStatus, Capabilities, DeviceInventory, DeviceKind,
    DeviceModelInfo, DeviceRoute, DeviceTransports, InventoryModel, LightCapabilities,
    LightValueRange, LightValueUnit, ModelInfoModel, PairedDevice, PairedModel, ReceiverInfo,
    RawDeviceAddress, ReceiverModel, RouteModel, StandaloneDevice, StandaloneModel,
    DIRECT_DEVICE_INDEX,
};
use crate::ordered::{each, opt, Same};
use crate::text::same_text;

verus! {

/// The vendor of all of them.
pub const LOGITECH_VENDOR_ID: u16 = 0x046d;

/// The product of the receiver.
pub const RECEIVER_PID: u16 = 0xc548;

/// The identity of the receiver.
pub const RECEIVER_UID: &'static str = "MOCK-BOLT-01";

/// The slot of the mouse.
pub const MOUSE_SLOT: u8 = 1;

/// The slot of the mouse that sleeps.
pub const OFFLINE_SLOT: u8 = 2;

/// The slot of the keyboard.
pub const KEYBOARD_SLOT: u8 = 3;

/// The slot of the touchpad.
pub const TOUCHPAD_SLOT: u8 = 4;

/// The product of the mouse without a receiver.
pub const DIRECT_PID: u16 = 0xb020;

/// The product of the light.
pub const LITRA_GLOW_PRODUCT_ID: u16 = 0xc900;

/// How often the camera goes on or off, in seconds.
pub const CAMERA_TOGGLE_PERIOD: u64 = 30;

/// How often another application comes to the front, in seconds.
pub const FOREGROUND_SWITCH_PERIOD: u64 = 10;

/// What the battery stands at after so many seconds: from eighty percent down
/// to twenty, one percent a minute, and up again.
pub open spec fn battery_at(seconds: u64) -> BatteryInfo {
    let percentage = (80 - seconds / 60 % 61) as u8;
    BatteryInfo {
        percentage,
        level: if percentage <= 10 {
            BatteryLevel::Critical
        } else if percentage <= 25 {
            BatteryLevel::Low
        } else {
            BatteryLevel::Good
        },
        status: BatteryStatus::Discharging,
    }
}

/// What the battery stands at after so many seconds.
pub fn draining_battery(seconds: u64) -> (battery: BatteryInfo)
    ensures
        battery == battery_at(seconds),
{
    let percentage: u8 = 80 - (seconds / 60 % 61) as u8;
    BatteryInfo {
        percentage,
        level: if percentage <= 10 {
            BatteryLevel::Critical
        } else if percentage <= 25 {
            BatteryLevel::Low
        } else {
            BatteryLevel::Good
        },
        status: BatteryStatus::Discharging,
    }
}

/// The mouse, whose battery is what moves between looks.
pub open spec fn mouse_model(battery: BatteryInfo) -> PairedModel {
    PairedModel {
        slot: MOUSE_SLOT,
        codename: Some("MX Master 3S"@),
        wpid: Some(0xb034),
        kind: DeviceKind::Mouse,
        online: true,
        battery: Some(battery),
        model_info: Some(
            ModelInfoModel {
                entity_count: 3,
                serial_number: Some("2140LZ00MOCK"@),
                unit_id: seq![0x01, 0x02, 0x03, 0x04],
                transports: DeviceTransports {
                    usb: false,
                    equad: true,
                    btle: true,
                    bluetooth: false,
                },
                model_ids: seq![0xb034, 0x4082, 0],
                extended_model_id: 0x0b,
            },
        ),
        capabilities: Some(
            Capabilities {
                buttons: true,
                pointer: true,
                lighting: false,
                scroll_inversion: true,
                hires_wheel: true,
                thumbwheel: true,
                haptic_feedback: true,
                haptic_panel: true,
                touchpad_raw_xy: false,
            },
        ),
    }
}

/// The mouse, whose battery is what moves between looks.
fn mouse(battery: BatteryInfo) -> (device: PairedDevice)
    ensures
        device@ == mouse_model(battery),
{
    let device = PairedDevice {
        slot: MOUSE_SLOT,
        codename: Some("MX Master 3S".to_owned()),
        wpid: Some(0xb034),
        kind: DeviceKind::Mouse,
        online: true,
        battery: Some(battery),
        model_info: Some(
            DeviceModelInfo {
                entity_count: 3,
                serial_number: Some("2140LZ00MOCK".to_owned()),
                unit_id: [0x01, 0x02, 0x03, 0x04],
                transports: DeviceTransports {
                    usb: false,
                    equad: true,
                    btle: true,
                    bluetooth: false,
                },
                model_ids: [0xb034, 0x4082, 0],
                extended_model_id: 0x0b,
            },
        ),
        capabilities: Some(
            Capabilities {
                buttons: true,
                pointer: true,
                lighting: false,
                scroll_inversion: true,
                hires_wheel: true,
                thumbwheel: true,
                haptic_feedback: true,
                haptic_panel: true,
                touchpad_raw_xy: false,
            },
        ),
    };
    proof {
        let info = device.model_info.unwrap();
        assert(info.unit_id@ =~= mouse_model(battery).model_info.unwrap().unit_id);
        assert(info.model_ids@ =~= mouse_model(battery).model_info.unwrap().model_ids);
    }
    device
}

/// A mouse that sleeps.
pub open spec fn offline_mouse_model() -> PairedModel {
    PairedModel {
        slot: OFFLINE_SLOT,
        codename: Some("MX Anywhere 3"@),
        wpid: Some(0x4090),
        kind: DeviceKind::Mouse,
        online: false,
        battery: None,
        model_info: None,
        capabilities: None,
    }
}

/// A mouse that sleeps.
fn offline_mouse() -> (device: PairedDevice)
    ensures
        device@ == offline_mouse_model(),
{
    let device = PairedDevice {
        slot: OFFLINE_SLOT,
        codename: Some("MX Anywhere 3".to_owned()),
        wpid: Some(0x4090),
        kind: DeviceKind::Mouse,
        online: false,
        battery: None,
        model_info: None,
        capabilities: None,
    };
    device
}

/// A keyboard with lighting.
pub open spec fn keyboard_model() -> PairedModel {
    PairedModel {
        slot: KEYBOARD_SLOT,
        codename: Some("MX Keys"@),
        wpid: Some(0x408a),
        kind: DeviceKind::Keyboard,
        online: true,
        battery: Some(
            BatteryInfo {
                percentage: 100,
                level: BatteryLevel::Full,
                status: BatteryStatus::Full,
            },
        ),
        model_info: Some(
            ModelInfoModel {
                entity_count: 2,
                serial_number: None,
                unit_id: seq![0x05, 0x06, 0x07, 0x08],
                transports: DeviceTransports {
                    usb: false,
                    equad: true,
                    btle: true,
                    bluetooth: false,
                },
                model_ids: seq![0xb35b, 0x408a, 0],
                extended_model_id: 0,
            },
        ),
        capabilities: Some(
            Capabilities {
                buttons: false,
                pointer: false,
                lighting: true,
                scroll_inversion: false,
                hires_wheel: false,
                thumbwheel: false,
                haptic_feedback: false,
                haptic_panel: false,
                touchpad_raw_xy: false,
            },
        ),
    }
}

/// A keyboard with lighting.
fn keyboard() -> (device: PairedDevice)
    ensures
        device@ == keyboard_model(),
{
    let device = PairedDevice {
        slot: KEYBOARD_SLOT,
        codename: Some("MX Keys".to_owned()),
        wpid: Some(0x408a),
        kind: DeviceKind::Keyboard,
        online: true,
        battery: Some(
            BatteryInfo {
                percentage: 100,
                level: BatteryLevel::Full,
                status: BatteryStatus::Full,
            },
        ),
        model_info: Some(
            DeviceModelInfo {
                entity_count: 2,
                serial_number: None,
                unit_id: [0x05, 0x06, 0x07, 0x08],
                transports: DeviceTransports {
                    usb: false,
                    equad: true,
                    btle: true,
                    bluetooth: false,
                },
                model_ids: [0xb35b, 0x408a, 0],
                extended_model_id: 0,
            },
        ),
        capabilities: Some(
            Capabilities {
                buttons: false,
                pointer: false,
                lighting: true,
                scroll_inversion: false,
                hires_wheel: false,
                thumbwheel: false,
                haptic_feedback: false,
                haptic_panel: false,
                touchpad_raw_xy: false,
            },
        ),
    };
    proof {
        let info = device.model_info.unwrap();
        assert(info.unit_id@ =~= keyboard_model().model_info.unwrap().unit_id);
        assert(info.model_ids@ =~= keyboard_model().model_info.unwrap().model_ids);
    }
    device
}

/// A touchpad.
pub open spec fn casa_touch_model() -> PairedModel {
    PairedModel {
        slot: TOUCHPAD_SLOT,
        codename: Some("Casa Touch"@),
        wpid: None,
        kind: DeviceKind::Touchpad,
        online: true,
        battery: Some(
            BatteryInfo {
                percentage: 75,
                level: BatteryLevel::Good,
                status: BatteryStatus::Discharging,
            },
        ),
        model_info: Some(
            ModelInfoModel {
                entity_count: 1,
                serial_number: Some("MOCKCASA1"@),
                unit_id: seq![0x11, 0x12, 0x13, 0x14],
                transports: DeviceTransports {
                    usb: false,
                    equad: false,
                    btle: true,
                    bluetooth: false,
                },
                model_ids: seq![0xbb00, 0, 0],
                extended_model_id: 2,
            },
        ),
        capabilities: Some(
            Capabilities {
                buttons: false,
                pointer: false,
                lighting: false,
                scroll_inversion: false,
                hires_wheel: false,
                thumbwheel: false,
                haptic_feedback: false,
                haptic_panel: false,
                touchpad_raw_xy: true,
            },
        ),
    }
}

/// A touchpad.
pub fn casa_touch() -> (device: PairedDevice)
    ensures
        device@ == casa_touch_model(),
{
    let device = PairedDevice {
        slot: TOUCHPAD_SLOT,
        codename: Some("Casa Touch".to_owned()),
        wpid: None,
        kind: DeviceKind::Touchpad,
        online: true,
        battery: Some(
            BatteryInfo {
                percentage: 75,
                level: BatteryLevel::Good,
                status: BatteryStatus::Discharging,
            },
        ),
        model_info: Some(
            DeviceModelInfo {
                entity_count: 1,
                serial_number: Some("MOCKCASA1".to_owned()),
                unit_id: [0x11, 0x12, 0x13, 0x14],
                transports: DeviceTransports {
                    usb: false,
                    equad: false,
                    btle: true,
                    bluetooth: false,
                },
                model_ids: [0xbb00, 0, 0],
                extended_model_id: 2,
            },
        ),
        capabilities: Some(
            Capabilities {
                buttons: false,
                pointer: false,
                lighting: false,
                scroll_inversion: false,
                hires_wheel: false,
                thumbwheel: false,
                haptic_feedback: false,
                haptic_panel: false,
                touchpad_raw_xy: true,
            },
        ),
    };
    proof {
        let info = device.model_info.unwrap();
        assert(info.unit_id@ =~= casa_touch_model().model_info.unwrap().unit_id);
        assert(info.model_ids@ =~= casa_touch_model().model_info.unwrap().model_ids);
    }
    device
}

/// A mouse without a receiver.
pub open spec fn direct_mouse_model() -> PairedModel {
    PairedModel {
        slot: DIRECT_DEVICE_INDEX,
        codename: Some("MX Vertical"@),
        wpid: None,
        kind: DeviceKind::Mouse,
        online: true,
        battery: Some(
            BatteryInfo {
                percentage: 55,
                level: BatteryLevel::Good,
                status: BatteryStatus::Discharging,
            },
        ),
        model_info: Some(
            ModelInfoModel {
                entity_count: 2,
                serial_number: None,
                unit_id: seq![0x09, 0x0a, 0x0b, 0x0c],
                transports: DeviceTransports {
                    usb: true,
                    equad: false,
                    btle: true,
                    bluetooth: false,
                },
                model_ids: seq![DIRECT_PID, 0, 0],
                extended_model_id: 0,
            },
        ),
        capabilities: Some(
            Capabilities {
                buttons: true,
                pointer: true,
                lighting: false,
                scroll_inversion: false,
                hires_wheel: false,
                thumbwheel: false,
                haptic_feedback: false,
                haptic_panel: false,
                touchpad_raw_xy: false,
            },
        ),
    }
}

/// A mouse without a receiver.
fn direct_mouse() -> (device: PairedDevice)
    ensures
        device@ == direct_mouse_model(),
{
    let device = PairedDevice {
        slot: DIRECT_DEVICE_INDEX,
        codename: Some("MX Vertical".to_owned()),
        wpid: None,
        kind: DeviceKind::Mouse,
        online: true,
        battery: Some(
            BatteryInfo {
                percentage: 55,
                level: BatteryLevel::Good,
                status: BatteryStatus::Discharging,
            },
        ),
        model_info: Some(
            DeviceModelInfo {
                entity_count: 2,
                serial_number: None,
                unit_id: [0x09, 0x0a, 0x0b, 0x0c],
                transports: DeviceTransports {
                    usb: true,
                    equad: false,
                    btle: true,
                    bluetooth: false,
                },
                model_ids: [DIRECT_PID, 0, 0],
                extended_model_id: 0,
            },
        ),
        capabilities: Some(
            Capabilities {
                buttons: true,
                pointer: true,
                lighting: false,
                scroll_inversion: false,
                hires_wheel: false,
                thumbwheel: false,
                haptic_feedback: false,
                haptic_panel: false,
                touchpad_raw_xy: false,
            },
        ),
    };
    proof {
        let info = device.model_info.unwrap();
        assert(info.unit_id@ =~= direct_mouse_model().model_info.unwrap().unit_id);
        assert(info.model_ids@ =~= direct_mouse_model().model_info.unwrap().model_ids);
    }
    device
}

/// The receiver and what is paired with it.
pub open spec fn bolt_model(battery: BatteryInfo) -> InventoryModel {
    InventoryModel {
        receiver: ReceiverModel {
            name: "Logi Bolt Receiver"@,
            vendor_id: LOGITECH_VENDOR_ID,
            product_id: RECEIVER_PID,
            unique_id: Some(RECEIVER_UID@),
        },
        paired: seq![
            mouse_model(battery),
            offline_mouse_model(),
            keyboard_model(),
            casa_touch_model(),
        ],
    }
}

/// The receiver and what is paired with it.
pub fn bolt_inventory(battery: BatteryInfo) -> (inventory: DeviceInventory)
    ensures
        inventory@ == bolt_model(battery),
{
    let mut paired: Vec<PairedDevice> = Vec::new();
    paired.push(mouse(battery));
    paired.push(offline_mouse());
    paired.push(keyboard());
    paired.push(casa_touch());
    assert(each(paired@) =~= bolt_model(battery).paired);
    DeviceInventory {
        receiver: ReceiverInfo {
            name: "Logi Bolt Receiver".to_owned(),
            vendor_id: LOGITECH_VENDOR_ID,
            product_id: RECEIVER_PID,
            unique_id: Some(RECEIVER_UID.to_owned()),
        },
        paired,
    }
}

/// The mouse without a receiver, listed as its own.
pub open spec fn direct_model() -> InventoryModel {
    InventoryModel {
        receiver: ReceiverModel {
            name: "MX Vertical"@,
            vendor_id: LOGITECH_VENDOR_ID,
            product_id: DIRECT_PID,
            unique_id: None,
        },
        paired: seq![direct_mouse_model()],
    }
}

/// The mouse without a receiver, listed as its own.
pub fn direct_inventory() -> (inventory: DeviceInventory)
    ensures
        inventory@ == direct_model(),
{
    let mut paired: Vec<PairedDevice> = Vec::new();
    paired.push(direct_mouse());
    assert(each(paired@) =~= direct_model().paired);
    DeviceInventory {
        receiver: ReceiverInfo {
            name: "MX Vertical".to_owned(),
            vendor_id: LOGITECH_VENDOR_ID,
            product_id: DIRECT_PID,
            unique_id: None,
        },
        paired,
    }
}

/// The light.
pub open spec fn light_model() -> StandaloneModel {
    StandaloneModel {
        vendor_id: LOGITECH_VENDOR_ID,
        product_id: LITRA_GLOW_PRODUCT_ID,
        usage_page: 0xff43,
        usage_id: 0x0202,
        identity: "MOCK-LITRA-01"@,
        display_name: "Litra Glow"@,
        manufacturer: Some("Logitech"@),
        serial_number: Some("MOCKLITRA1"@),
        unit_id: seq![0x0d, 0x0e, 0x0f, 0x10],
        kind: DeviceKind::Unknown,
        online: true,
        capabilities: None,
        light_capabilities: Some(
            LightCapabilities {
                power: true,
                brightness: Some(
                    LightValueRange { min: 0, max: 100, step: 1, unit: LightValueUnit::Percent },
                ),
                temperature: Some(
                    LightValueRange {
                        min: 2700,
                        max: 6500,
                        step: 100,
                        unit: LightValueUnit::Kelvin,
                    },
                ),
                color: false,
                zones: false,
            },
        ),
        driver_id: "litra"@,
        registry_model_id: Some("8c900"@),
    }
}

/// The light: what it can be told to do, not what it was told.
pub fn standalone_light() -> (light: StandaloneDevice)
    ensures
        light@ == light_model(),
{
    let light = StandaloneDevice {
        address: RawDeviceAddress {
            vendor_id: LOGITECH_VENDOR_ID,
            product_id: LITRA_GLOW_PRODUCT_ID,
            usage_page: 0xff43,
            usage_id: 0x0202,
            identity: "MOCK-LITRA-01".to_owned(),
        },
        display_name: "Litra Glow".to_owned(),
        manufacturer: Some("Logitech".to_owned()),
        serial_number: Some("MOCKLITRA1".to_owned()),
        unit_id: [0x0d, 0x0e, 0x0f, 0x10],
        kind: DeviceKind::Unknown,
        online: true,
        capabilities: None,
        light_capabilities: Some(
            LightCapabilities {
                power: true,
                brightness: Some(
                    LightValueRange { min: 0, max: 100, step: 1, unit: LightValueUnit::Percent },
                ),
                temperature: Some(
                    LightValueRange {
                        min: 2700,
                        max: 6500,
                        step: 100,
                        unit: LightValueUnit::Kelvin,
                    },
                ),
                color: false,
                zones: false,
            },
        ),
        driver_id: "litra".to_owned(),
        registry_model_id: Some("8c900".to_owned()),
    };
    assert(light@.unit_id =~= light_model().unit_id);
    light
}

/// The route that the light is told things by.
pub open spec fn light_route_model() -> RouteModel {
    RouteModel::Direct { vendor_id: LOGITECH_VENDOR_ID, product_id: LITRA_GLOW_PRODUCT_ID }
}

/// The route that the light is told things by.
pub fn light_route() -> (route: DeviceRoute)
    ensures
        route@ == light_route_model(),
{
    DeviceRoute::Direct { vendor_id: LOGITECH_VENDOR_ID, product_id: LITRA_GLOW_PRODUCT_ID }
}

/// Which scripted device a route leads to, by its index.
pub open spec fn device_index(route: RouteModel) -> Option<u8> {
    match route {
        RouteModel::Bolt { receiver_uid, slot } => if receiver_uid == RECEIVER_UID@ {
            Some(slot)
        } else {
            None
        },
        RouteModel::Direct { vendor_id, product_id } => if vendor_id == LOGITECH_VENDOR_ID
            && product_id == DIRECT_PID {
            Some(DIRECT_DEVICE_INDEX)
        } else {
            None
        },
        RouteModel::RawHid { .. } => None,
    }
}

/// Which scripted device a route leads to, by its index.
pub fn settings_key(route: &DeviceRoute) -> (index: Option<u8>)
    ensures
        index == device_index(route@),
{
    match route {
        DeviceRoute::Bolt { receiver_uid, slot } => {
            if same_text(receiver_uid.as_str(), RECEIVER_UID) {
                Some(*slot)
            } else {
                None
            }
        },
        DeviceRoute::Direct { vendor_id, product_id } => {
            if *vendor_id == LOGITECH_VENDOR_ID && *product_id == DIRECT_PID {
                Some(DIRECT_DEVICE_INDEX)
            } else {
                None
            }
        },
        DeviceRoute::RawHid {
            vendor_id: _,
            product_id: _,
            usage_page: _,
            usage_id: _,
            identity: _,
        } => None,
    }
}

/// Whether a camera is on after so many seconds.
pub open spec fn camera_on(seconds: u64) -> bool {
    seconds / CAMERA_TOGGLE_PERIOD % 2 == 1
}

/// An application.
#[derive(Debug, PartialEq, Eq)]
pub struct ForegroundApp {
    pub id: String,
    pub display_name: String,
}

/// The model of a [`ForegroundApp`].
pub ghost struct AppIdentity {
    pub id: Seq<char>,
    pub display_name: Seq<char>,
}

impl View for ForegroundApp {
    type V = AppIdentity;

    open spec fn view(&self) -> AppIdentity {
        AppIdentity { id: self.id@, display_name: self.display_name@ }
    }
}

impl Same for ForegroundApp {
    fn same(&self, other: &Self) -> (same: bool) {
        self.id.same(&other.id) && self.display_name.same(&other.display_name)
    }
}

/// How many applications there are.
pub const SCRIPTED_APPS: u64 = 3;

/// The application at a place in the cycle.
pub open spec fn scripted_app(position: int) -> AppIdentity {
    if position == 0 {
        AppIdentity { id: "com.apple.Safari"@, display_name: "Safari"@ }
    } else if position == 1 {
        AppIdentity { id: "com.microsoft.VSCode"@, display_name: "Code"@ }
    } else {
        AppIdentity { id: "com.apple.finder"@, display_name: "Finder"@ }
    }
}

/// The application in front, and those that were lately, the last one first.
#[derive(Debug, PartialEq, Eq)]
pub struct ForegroundApps {
    pub current: Option<ForegroundApp>,
    pub recent: Vec<ForegroundApp>,
}

/// The model of [`ForegroundApps`].
#[verifier::ext_equal]
pub ghost struct ForegroundModel {
    pub current: Option<AppIdentity>,
    pub recent: Seq<AppIdentity>,
}

impl View for ForegroundApps {
    type V = ForegroundModel;

    open spec fn view(&self) -> ForegroundModel {
        ForegroundModel { current: opt(self.current), recent: each(self.recent@) }
    }
}

/// The place in the cycle after so many seconds.
pub open spec fn cycle_position(seconds: u64) -> int {
    (seconds / FOREGROUND_SWITCH_PERIOD % SCRIPTED_APPS) as int
}

/// The applications after so many seconds.
pub open spec fn foreground_at(seconds: u64) -> ForegroundModel {
    ForegroundModel {
        current: Some(scripted_app(cycle_position(seconds))),
        recent: Seq::new(
            SCRIPTED_APPS as nat,
            |back: int| scripted_app((cycle_position(seconds) + SCRIPTED_APPS - back) % 3),
        ),
    }
}

fn app_at(position: u64) -> (app: ForegroundApp)
    ensures
        app@ == scripted_app(position as int),
{
    if position == 0 {
        ForegroundApp { id: "com.apple.Safari".to_owned(), display_name: "Safari".to_owned() }
    } else if position == 1 {
        ForegroundApp { id: "com.microsoft.VSCode".to_owned(), display_name: "Code".to_owned() }
    } else {
        ForegroundApp { id: "com.apple.finder".to_owned(), display_name: "Finder".to_owned() }
    }
}

/// The applications after so many seconds.
pub fn foreground(seconds: u64) -> (apps: ForegroundApps)
    ensures
        apps@ == foreground_at(seconds),
{
    let position: u64 = seconds / FOREGROUND_SWITCH_PERIOD % SCRIPTED_APPS;
    let mut recent: Vec<ForegroundApp> = Vec::new();
    let mut back: u64 = 0;
    while back < SCRIPTED_APPS
        invariant
            back <= SCRIPTED_APPS,
            position == cycle_position(seconds),
            position < SCRIPTED_APPS,
            recent@.len() == back,
            forall|i: int|
                0 <= i < back ==> (#[trigger] recent@[i])@ == foreground_at(seconds).recent[i],
        decreases SCRIPTED_APPS - back,
    {
        recent.push(app_at((position + SCRIPTED_APPS - back) % SCRIPTED_APPS));
        back += 1;
    }
    assert(each(recent@) =~= foreground_at(seconds).recent);
    ForegroundApps { current: Some(app_at(position)), recent }
}

/// Whether a camera is on after so many seconds.
pub fn camera_active(seconds: u64) -> (on: bool)
    ensures
        on == camera_on(seconds),
{
    seconds / CAMERA_TOGGLE_PERIOD % 2 == 1
}

/// The battery stays between twenty and eighty percent.
pub proof fn law_the_battery_stays_in_range(seconds: u64)
    ensures
        20 <= battery_at(seconds).percentage <= 80,
{
}

/// The application in front is the latest of the recent ones, and none of them
/// is listed twice.
pub proof fn law_the_front_is_the_latest(seconds: u64)
    ensures
        foreground_at(seconds).current == Some(foreground_at(seconds).recent[0]),
        forall|i: int, j: int|
            0 <= i < j < SCRIPTED_APPS ==> (#[trigger] foreground_at(seconds).recent[i])
                != (#[trigger] foreground_at(seconds).recent[j]),
{
    reveal_strlit("com.apple.Safari");
    reveal_strlit("com.microsoft.VSCode");
    reveal_strlit("com.apple.finder");
    assert("com.apple.Safari"@.len() == 16);
    assert("com.microsoft.VSCode"@.len() == 20);
    assert("com.apple.finder"@.len() == 16);
    assert("com.apple.Safari"@[10] != "com.apple.finder"@[10]);
}

/// The battery starts at eighty percent and loses one percent each minute, and
/// none within a minute; after twenty it is full again as at first. It is low up
/// to a quarter, and drains all the while.
pub proof fn law_the_battery_drains_by_the_minute(seconds: u64)
    requires
        seconds + 60 <= u64::MAX,
    ensures
        battery_at(0).percentage == 80,
        battery_at(seconds).percentage > 20 ==> battery_at((seconds + 60) as u64).percentage
            == battery_at(seconds).percentage - 1,
        battery_at(seconds).percentage == 20 ==> battery_at((seconds + 60) as u64).percentage == 80,
        seconds % 60 != 59 ==> battery_at((seconds + 1) as u64) == battery_at(seconds),
        battery_at(seconds).level is Low <==> battery_at(seconds).percentage <= 25,
        battery_at(seconds).level is Good <==> battery_at(seconds).percentage > 25,
        battery_at(seconds).status is Discharging,
{
}

/// The camera is off at first, and every thirty seconds it goes on or off.
pub proof fn law_the_camera_goes_on_and_off(seconds: u64)
    requires
        seconds + 30 <= u64::MAX,
    ensures
        seconds < 30 ==> !camera_on(seconds),
        camera_on((seconds + 30) as u64) != camera_on(seconds),
        seconds % 30 != 29 ==> camera_on((seconds + 1) as u64) == camera_on(seconds),
{
    assert((seconds + 30) / 30 == seconds / 30 + 1);
}

/// Every ten seconds another application comes to the front, and the one before
/// it is the next that was lately there; after three of them the first is back.
pub proof fn law_the_front_changes_hands(seconds: u64)
    requires
        seconds + 30 <= u64::MAX,
    ensures
        ({
            let later = foreground_at((seconds + 10) as u64);
            &&& later.current != foreground_at(seconds).current
            &&& later.recent[1] == foreground_at(seconds).current.unwrap()
            &&& later.recent[2] == foreground_at(seconds).recent[1]
        }),
        foreground_at((seconds + 30) as u64).current == foreground_at(seconds).current,
        seconds % 10 != 9 ==> foreground_at((seconds + 1) as u64) == foreground_at(seconds),
        foreground_at(seconds).recent.len() == 3,
{
    law_the_front_is_the_latest(seconds);
    law_the_front_is_the_latest((seconds + 10) as u64);
    assert((seconds + 10) / 10 == seconds / 10 + 1);
    assert((seconds + 30) / 10 == seconds / 10 + 3);
    if seconds % 10 != 9 {
        assert((seconds + 1) / 10 == seconds / 10);
        assert(cycle_position((seconds + 1) as u64) == cycle_position(seconds));
    }
    let later = foreground_at((seconds + 10) as u64);
    assert(later.recent[0] != later.recent[1]);
}

/// The devices behind the receiver sit in slots of their own, each is reached by
/// its slot, and what the battery stands at is told of the first alone.
pub proof fn law_each_device_sits_in_its_own_slot(
    battery: BatteryInfo,
    other: BatteryInfo,
    i: int,
    j: int,
)
    requires
        0 <= i < bolt_model(battery).paired.len(),
        0 <= j < bolt_model(battery).paired.len(),
    ensures
        i != j ==> bolt_model(battery).paired[i].slot != bolt_model(battery).paired[j].slot,
        bolt_model(battery).paired.len() == 4,
        bolt_model(battery).paired[0].battery == Some(battery),
        i > 0 ==> bolt_model(battery).paired[i] == bolt_model(other).paired[i],
        bolt_model(battery).receiver == bolt_model(other).receiver,
        ({
            let receiver = bolt_model(battery).receiver;
            let slot = bolt_model(battery).paired[i].slot;
            route_in(receiver.unique_id, receiver.vendor_id, receiver.product_id, slot) matches Some(
                route,
            ) && device_index(route) == Some(slot)
        }),
        ({
            let receiver = direct_model().receiver;
            let slot = direct_model().paired[0].slot;
            route_in(receiver.unique_id, receiver.vendor_id, receiver.product_id, slot) matches Some(
                route,
            ) && device_index(route) == Some(slot)
        }),
        device_index(light_route_model()) is None,
{
}

/// No other receiver and no other product leads to a device.
pub proof fn law_no_other_way_leads_to_a_device(route: RouteModel)
    ensures
        route is RawHid ==> device_index(route) is None,
        route matches RouteModel::Bolt { receiver_uid, slot } ==> (device_index(route) is Some
            <==> receiver_uid == RECEIVER_UID@),
        route matches RouteModel::Bolt { receiver_uid, slot } ==> (device_index(route) is Some
            ==> device_index(route) == Some(slot)),
        route matches RouteModel::Direct { vendor_id, product_id } ==> (device_index(route) is Some
            <==> vendor_id == LOGITECH_VENDOR_ID && product_id == DIRECT_PID),
{
}

}
