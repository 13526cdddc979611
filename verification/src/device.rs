//! Devices as an enumeration reports them.

use vstd::prelude::*;

use crate::ordered::{
    each, opt, replicate_each, replicate_opt, same_each, same_opt, Replicate, Same,
};

verus! {

/// The device index of a device without a receiver.
pub const DIRECT_DEVICE_INDEX: u8 = 0xff;

/// What kind of device this is.
#[derive(Clone, Copy, Debug, PartialEq, Eq, Hash, Structural)]
pub enum DeviceKind {
    Mouse,
    Keyboard,
    Numpad,
    Presenter,
    Remote,
    Trackball,
    Touchpad,
    Tablet,
    Gamepad,
    Joystick,
    Headset,
    Camera,
    Light,
    Unknown,
}

/// What a device can be configured to do.
#[derive(Clone, Copy, Debug, PartialEq, Eq, Hash, Structural)]
pub struct Capabilities {
    pub buttons: bool,
    pub pointer: bool,
    pub lighting: bool,
    pub scroll_inversion: bool,
    pub hires_wheel: bool,
    pub thumbwheel: bool,
    pub haptic_feedback: bool,
    pub haptic_panel: bool,
    pub touchpad_raw_xy: bool,
}

/// What a light's value is measured in.
#[derive(Clone, Copy, Debug, PartialEq, Eq, Hash, Structural)]
pub enum LightValueUnit {
    Percent,
    Kelvin,
}

/// The values a light takes, from one to another in steps.
#[derive(Clone, Copy, Debug, PartialEq, Eq, Hash, Structural)]
pub struct LightValueRange {
    pub min: u16,
    pub max: u16,
    pub step: u16,
    pub unit: LightValueUnit,
}

/// What a standalone light can be told to do.
#[derive(Clone, Copy, Debug, PartialEq, Eq, Hash, Structural)]
pub struct LightCapabilities {
    pub power: bool,
    pub brightness: Option<LightValueRange>,
    pub temperature: Option<LightValueRange>,
    pub color: bool,
    pub zones: bool,
}

/// The transports a device announces.
#[derive(Clone, Copy, Debug, PartialEq, Eq, Hash, Structural)]
pub struct DeviceTransports {
    pub usb: bool,
    pub equad: bool,
    pub btle: bool,
    pub bluetooth: bool,
}

/// How a device's battery stands.
#[derive(Clone, Copy, Debug, PartialEq, Eq, Hash, Structural)]
pub struct BatteryInfo {
    pub percentage: u8,
    pub level: BatteryLevel,
    pub status: BatteryStatus,
}

/// A coarse battery level.
#[derive(Clone, Copy, Debug, PartialEq, Eq, Hash, Structural)]
pub enum BatteryLevel {
    Critical,
    Low,
    Good,
    Full,
    Unknown,
}

/// What a battery is doing.
#[derive(Clone, Copy, Debug, PartialEq, Eq, Hash, Structural)]
pub enum BatteryStatus {
    Discharging,
    Charging,
    ChargingSlow,
    Full,
    Error,
    Unknown,
}

/// The identity a device reports over HID++.
#[derive(Clone, Debug, PartialEq, Eq)]
pub struct DeviceModelInfo {
    pub entity_count: u8,
    pub serial_number: Option<String>,
    pub unit_id: [u8; 4],
    pub transports: DeviceTransports,
    pub model_ids: [u16; 3],
    pub extended_model_id: u8,
}

/// A receiver, or a directly attached device in its stead.
#[derive(Clone, Debug, PartialEq, Eq)]
pub struct ReceiverInfo {
    pub name: String,
    pub vendor_id: u16,
    pub product_id: u16,
    pub unique_id: Option<String>,
}

/// One device paired with a receiver.
#[derive(Clone, Debug, PartialEq, Eq)]
pub struct PairedDevice {
    pub slot: u8,
    pub codename: Option<String>,
    pub wpid: Option<u16>,
    pub kind: DeviceKind,
    pub online: bool,
    pub battery: Option<BatteryInfo>,
    pub model_info: Option<DeviceModelInfo>,
    pub capabilities: Option<Capabilities>,
}

/// A receiver with the devices paired to it.
#[derive(Clone, Debug, PartialEq, Eq)]
pub struct DeviceInventory {
    pub receiver: ReceiverInfo,
    pub paired: Vec<PairedDevice>,
}

/// How a device is reached.
#[derive(Clone, Debug, PartialEq, Eq)]
pub enum DeviceRoute {
    /// Through a slot of a receiver.
    Bolt { receiver_uid: String, slot: u8 },
    /// On its own.
    Direct { vendor_id: u16, product_id: u16 },
    /// On its own, without HID++.
    RawHid {
        vendor_id: u16,
        product_id: u16,
        usage_page: u16,
        usage_id: u16,
        identity: String,
    },
}

/// The model of a [`DeviceRoute`].
pub ghost enum RouteModel {
    Bolt { receiver_uid: Seq<char>, slot: u8 },
    Direct { vendor_id: u16, product_id: u16 },
    RawHid {
        vendor_id: u16,
        product_id: u16,
        usage_page: u16,
        usage_id: u16,
        identity: Seq<char>,
    },
}

/// The model of a [`DeviceModelInfo`].
pub ghost struct ModelInfoModel {
    pub entity_count: u8,
    pub serial_number: Option<Seq<char>>,
    pub unit_id: Seq<u8>,
    pub transports: DeviceTransports,
    pub model_ids: Seq<u16>,
    pub extended_model_id: u8,
}

impl View for DeviceModelInfo {
    type V = ModelInfoModel;

    open spec fn view(&self) -> ModelInfoModel {
        ModelInfoModel {
            entity_count: self.entity_count,
            serial_number: opt(self.serial_number),
            unit_id: self.unit_id@,
            transports: self.transports,
            model_ids: self.model_ids@,
            extended_model_id: self.extended_model_id,
        }
    }
}

impl Replicate for DeviceModelInfo {
    fn replicate(&self) -> (copy: Self) {
        DeviceModelInfo {
            entity_count: self.entity_count,
            serial_number: replicate_opt(&self.serial_number),
            unit_id: self.unit_id,
            transports: self.transports,
            model_ids: self.model_ids,
            extended_model_id: self.extended_model_id,
        }
    }
}

/// Where a device without HID++ is found.
#[derive(Debug, PartialEq, Eq)]
pub struct RawDeviceAddress {
    pub vendor_id: u16,
    pub product_id: u16,
    pub usage_page: u16,
    pub usage_id: u16,
    pub identity: String,
}

/// A device without HID++.
#[derive(Debug, PartialEq, Eq)]
pub struct StandaloneDevice {
    pub address: RawDeviceAddress,
    pub display_name: String,
    pub manufacturer: Option<String>,
    pub serial_number: Option<String>,
    pub unit_id: [u8; 4],
    pub kind: DeviceKind,
    pub online: bool,
    pub capabilities: Option<Capabilities>,
    pub light_capabilities: Option<LightCapabilities>,
    pub driver_id: String,
    pub registry_model_id: Option<String>,
}

/// The model of a [`StandaloneDevice`].
#[verifier::ext_equal]
pub ghost struct StandaloneModel {
    pub vendor_id: u16,
    pub product_id: u16,
    pub usage_page: u16,
    pub usage_id: u16,
    pub identity: Seq<char>,
    pub display_name: Seq<char>,
    pub manufacturer: Option<Seq<char>>,
    pub serial_number: Option<Seq<char>>,
    pub unit_id: Seq<u8>,
    pub kind: DeviceKind,
    pub online: bool,
    pub capabilities: Option<Capabilities>,
    pub light_capabilities: Option<LightCapabilities>,
    pub driver_id: Seq<char>,
    pub registry_model_id: Option<Seq<char>>,
}

impl View for StandaloneDevice {
    type V = StandaloneModel;

    open spec fn view(&self) -> StandaloneModel {
        StandaloneModel {
            vendor_id: self.address.vendor_id,
            product_id: self.address.product_id,
            usage_page: self.address.usage_page,
            usage_id: self.address.usage_id,
            identity: self.address.identity@,
            display_name: self.display_name@,
            manufacturer: opt(self.manufacturer),
            serial_number: opt(self.serial_number),
            unit_id: self.unit_id@,
            kind: self.kind,
            online: self.online,
            capabilities: self.capabilities,
            light_capabilities: self.light_capabilities,
            driver_id: self.driver_id@,
            registry_model_id: opt(self.registry_model_id),
        }
    }
}

impl Same for StandaloneDevice {
    fn same(&self, other: &Self) -> (same: bool) {
        let same_unit = self.unit_id[0] == other.unit_id[0] && self.unit_id[1] == other.unit_id[1]
            && self.unit_id[2] == other.unit_id[2] && self.unit_id[3] == other.unit_id[3];
        proof {
            if same_unit {
                assert(self.unit_id@ =~= other.unit_id@);
            }
        }
        self.address.vendor_id == other.address.vendor_id && self.address.product_id
            == other.address.product_id && self.address.usage_page == other.address.usage_page
            && self.address.usage_id == other.address.usage_id && self.address.identity.same(
            &other.address.identity,
        ) && self.display_name.same(&other.display_name) && same_opt(
            &self.manufacturer,
            &other.manufacturer,
        ) && same_opt(&self.serial_number, &other.serial_number) && same_unit && self.kind
            == other.kind && self.online == other.online && self.capabilities == other.capabilities
            && self.light_capabilities == other.light_capabilities && self.driver_id.same(
            &other.driver_id,
        ) && same_opt(&self.registry_model_id, &other.registry_model_id)
    }
}

/// The model of a [`ReceiverInfo`].
pub ghost struct ReceiverModel {
    pub name: Seq<char>,
    pub vendor_id: u16,
    pub product_id: u16,
    pub unique_id: Option<Seq<char>>,
}

/// The model of a [`PairedDevice`].
pub ghost struct PairedModel {
    pub slot: u8,
    pub codename: Option<Seq<char>>,
    pub wpid: Option<u16>,
    pub kind: DeviceKind,
    pub online: bool,
    pub battery: Option<BatteryInfo>,
    pub model_info: Option<ModelInfoModel>,
    pub capabilities: Option<Capabilities>,
}

/// The model of a [`DeviceInventory`].
#[verifier::ext_equal]
pub ghost struct InventoryModel {
    pub receiver: ReceiverModel,
    pub paired: Seq<PairedModel>,
}

impl View for ReceiverInfo {
    type V = ReceiverModel;

    open spec fn view(&self) -> ReceiverModel {
        ReceiverModel {
            name: self.name@,
            vendor_id: self.vendor_id,
            product_id: self.product_id,
            unique_id: opt(self.unique_id),
        }
    }
}

impl View for PairedDevice {
    type V = PairedModel;

    open spec fn view(&self) -> PairedModel {
        PairedModel {
            slot: self.slot,
            codename: opt(self.codename),
            wpid: self.wpid,
            kind: self.kind,
            online: self.online,
            battery: self.battery,
            model_info: opt(self.model_info),
            capabilities: self.capabilities,
        }
    }
}

impl View for DeviceInventory {
    type V = InventoryModel;

    open spec fn view(&self) -> InventoryModel {
        InventoryModel { receiver: self.receiver@, paired: each(self.paired@) }
    }
}

impl Replicate for PairedDevice {
    fn replicate(&self) -> (copy: Self) {
        PairedDevice {
            slot: self.slot,
            codename: replicate_opt(&self.codename),
            wpid: self.wpid,
            kind: self.kind,
            online: self.online,
            battery: self.battery,
            model_info: replicate_opt(&self.model_info),
            capabilities: self.capabilities,
        }
    }
}

impl Replicate for DeviceInventory {
    fn replicate(&self) -> (copy: Self) {
        DeviceInventory {
            receiver: ReceiverInfo {
                name: self.receiver.name.replicate(),
                vendor_id: self.receiver.vendor_id,
                product_id: self.receiver.product_id,
                unique_id: replicate_opt(&self.receiver.unique_id),
            },
            paired: replicate_each(&self.paired),
        }
    }
}

impl Same for DeviceModelInfo {
    fn same(&self, other: &Self) -> (same: bool) {
        let same_unit = self.unit_id[0] == other.unit_id[0] && self.unit_id[1] == other.unit_id[1]
            && self.unit_id[2] == other.unit_id[2] && self.unit_id[3] == other.unit_id[3];
        let same_models = self.model_ids[0] == other.model_ids[0] && self.model_ids[1]
            == other.model_ids[1] && self.model_ids[2] == other.model_ids[2];
        proof {
            if same_unit {
                assert(self.unit_id@ =~= other.unit_id@);
            }
            if same_models {
                assert(self.model_ids@ =~= other.model_ids@);
            }
        }
        self.entity_count == other.entity_count && same_opt(
            &self.serial_number,
            &other.serial_number,
        ) && same_unit && self.transports == other.transports && same_models
            && self.extended_model_id == other.extended_model_id
    }
}

impl Same for PairedDevice {
    fn same(&self, other: &Self) -> (same: bool) {
        self.slot == other.slot && same_opt(&self.codename, &other.codename) && self.wpid
            == other.wpid && self.kind == other.kind && self.online == other.online && self.battery
            == other.battery && same_opt(&self.model_info, &other.model_info) && self.capabilities
            == other.capabilities
    }
}

impl Same for DeviceInventory {
    fn same(&self, other: &Self) -> (same: bool) {
        self.receiver.name.same(&other.receiver.name) && self.receiver.vendor_id
            == other.receiver.vendor_id && self.receiver.product_id == other.receiver.product_id
            && same_opt(&self.receiver.unique_id, &other.receiver.unique_id) && same_each(
            &self.paired,
            &other.paired,
        )
    }
}

impl View for DeviceRoute {
    type V = RouteModel;

    open spec fn view(&self) -> RouteModel {
        match self {
            DeviceRoute::Bolt { receiver_uid, slot } => RouteModel::Bolt {
                receiver_uid: receiver_uid@,
                slot: *slot,
            },
            DeviceRoute::Direct { vendor_id, product_id } => RouteModel::Direct {
                vendor_id: *vendor_id,
                product_id: *product_id,
            },
            DeviceRoute::RawHid { vendor_id, product_id, usage_page, usage_id, identity } =>
                RouteModel::RawHid {
                vendor_id: *vendor_id,
                product_id: *product_id,
                usage_page: *usage_page,
                usage_id: *usage_id,
                identity: identity@,
            },
        }
    }
}

impl Replicate for DeviceRoute {
    fn replicate(&self) -> (copy: Self) {
        match self {
            DeviceRoute::Bolt { receiver_uid, slot } => DeviceRoute::Bolt {
                receiver_uid: receiver_uid.clone(),
                slot: *slot,
            },
            DeviceRoute::Direct { vendor_id, product_id } => DeviceRoute::Direct {
                vendor_id: *vendor_id,
                product_id: *product_id,
            },
            DeviceRoute::RawHid { vendor_id, product_id, usage_page, usage_id, identity } =>
                DeviceRoute::RawHid {
                vendor_id: *vendor_id,
                product_id: *product_id,
                usage_page: *usage_page,
                usage_id: *usage_id,
                identity: identity.clone(),
            },
        }
    }
}

impl Same for DeviceRoute {
    fn same(&self, other: &Self) -> (same: bool) {
        match (self, other) {
            (
                DeviceRoute::Bolt { receiver_uid: a, slot: s },
                DeviceRoute::Bolt { receiver_uid: b, slot: t },
            ) => *a == *b && *s == *t,
            (
                DeviceRoute::Direct { vendor_id: v, product_id: p },
                DeviceRoute::Direct { vendor_id: w, product_id: q },
            ) => *v == *w && *p == *q,
            (
                DeviceRoute::RawHid {
                    vendor_id: v,
                    product_id: p,
                    usage_page: u,
                    usage_id: i,
                    identity: a,
                },
                DeviceRoute::RawHid {
                    vendor_id: w,
                    product_id: q,
                    usage_page: x,
                    usage_id: j,
                    identity: b,
                },
            ) => *v == *w && *p == *q && *u == *x && *i == *j && *a == *b,
            _ => false,
        }
    }
}

impl Default for Capabilities {
    fn default() -> (capabilities: Self)
        ensures
            capabilities == (Capabilities {
                buttons: false,
                pointer: false,
                lighting: false,
                scroll_inversion: false,
                hires_wheel: false,
                thumbwheel: false,
                haptic_feedback: false,
                haptic_panel: false,
                touchpad_raw_xy: false,
            }),
    {
        Capabilities {
            buttons: false,
            pointer: false,
            lighting: false,
            scroll_inversion: false,
            hires_wheel: false,
            thumbwheel: false,
            haptic_feedback: false,
            haptic_panel: false,
            touchpad_raw_xy: false,
        }
    }
}

impl Default for LightCapabilities {
    fn default() -> (capabilities: Self)
        ensures
            capabilities == (LightCapabilities {
                power: false,
                brightness: None,
                temperature: None,
                color: false,
                zones: false,
            }),
    {
        LightCapabilities {
            power: false,
            brightness: None,
            temperature: None,
            color: false,
            zones: false,
        }
    }
}

impl Default for DeviceTransports {
    fn default() -> (transports: Self)
        ensures
            transports == (DeviceTransports {
                usb: false,
                equad: false,
                btle: false,
                bluetooth: false,
            }),
    {
        DeviceTransports { usb: false, equad: false, btle: false, bluetooth: false }
    }
}

/// The route to the device in `slot` of an inventory entry, if there is one.
pub open spec fn route_in(
    unique_id: Option<Seq<char>>,
    vendor_id: u16,
    product_id: u16,
    slot: u8,
) -> Option<RouteModel> {
    if slot == DIRECT_DEVICE_INDEX {
        Some(RouteModel::Direct { vendor_id, product_id })
    } else {
        match unique_id {
            Some(receiver_uid) => Some(RouteModel::Bolt { receiver_uid, slot }),
            None => None,
        }
    }
}

impl DeviceInventory {
    /// The route to the device in `slot`.
    pub open spec fn route_to(&self, slot: u8) -> Option<RouteModel> {
        route_in(
            opt(self.receiver.unique_id),
            self.receiver.vendor_id,
            self.receiver.product_id,
            slot,
        )
    }
}

impl DeviceRoute {
    /// The route to the device in `slot` of an inventory entry: on its own where
    /// the slot says so, else through the receiver, which must be identified.
    pub fn device_route_for(inventory: &DeviceInventory, slot: u8) -> (route: Option<DeviceRoute>)
        ensures
            opt(route) == inventory.route_to(slot),
    {
        if slot == DIRECT_DEVICE_INDEX {
            Some(
                DeviceRoute::Direct {
                    vendor_id: inventory.receiver.vendor_id,
                    product_id: inventory.receiver.product_id,
                },
            )
        } else {
            match &inventory.receiver.unique_id {
                Some(uid) => Some(DeviceRoute::Bolt { receiver_uid: uid.clone(), slot }),
                None => None,
            }
        }
    }
}

/// A device that sits in no slot is reached directly, whatever the receiver is
/// called; any other is reached behind its receiver, in its own slot, and only
/// where the receiver is identified.
pub proof fn law_how_a_device_is_reached(inventory: DeviceInventory, slot: u8)
    ensures
        slot == DIRECT_DEVICE_INDEX ==> inventory.route_to(slot) is Some,
        slot != DIRECT_DEVICE_INDEX ==> (inventory.route_to(slot) is Some
            <==> inventory.receiver.unique_id is Some),
        inventory.route_to(slot) matches Some(RouteModel::Direct { vendor_id, product_id }) ==> slot
            == DIRECT_DEVICE_INDEX && vendor_id == inventory.receiver.vendor_id && product_id
            == inventory.receiver.product_id,
        inventory.route_to(slot) matches Some(RouteModel::Bolt { receiver_uid, slot: behind })
            ==> slot != DIRECT_DEVICE_INDEX && behind == slot
            && inventory.receiver.unique_id.unwrap()@ == receiver_uid,
        !(inventory.route_to(slot) matches Some(RouteModel::RawHid { .. })),
{
}

}
