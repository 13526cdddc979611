//! The devices the agent works with.
//!
//! What an enumeration found is put together with where each device's settings
//! are kept.

use vstd::prelude::*;

use crate::agent::capture_plan::{
    plan_for_device_with_touchpad, touchpad_recovery_plan, DeviceCapturePlan, PlanModel,
};
use crate::agent::startup::{identity_of, journal_identity};
use crate::config::{Config, ConfigModel};
use crate::device::{
    Capabilities, DeviceInventory, DeviceKind, DeviceRoute, LightCapabilities, PairedDevice,
    RouteModel, StandaloneDevice, StandaloneModel, DIRECT_DEVICE_INDEX,
};
use crate::device_order::{DeviceIdentity, DeviceStableId, IdentityModel, StableModel};
use crate::hid::ScrollResolution;
use crate::ordered::{each, opt, replicate_opt, Replicate};
use crate::text::same_text;

verus! {

/// Whether the devices are known.
#[derive(Clone, Copy, Debug, PartialEq, Eq, Hash, Structural)]
pub enum InventoryHealth {
    /// The first look is not done.
    Scanning,
    /// A look was done, whatever it found.
    Ready,
    /// No look has ever worked.
    Unavailable,
}

impl InventoryHealth {
    /// A look was done.
    pub open spec fn after_refresh(self) -> InventoryHealth {
        InventoryHealth::Ready
    }

    /// A look did not work: where one did before, what it found still stands.
    pub open spec fn after_failure(self) -> InventoryHealth {
        if self == InventoryHealth::Ready {
            InventoryHealth::Ready
        } else {
            InventoryHealth::Unavailable
        }
    }

    /// A look was done, whatever it found.
    pub fn refresh_inventory(&mut self)
        ensures
            *final(self) == old(self).after_refresh(),
    {
        *self = InventoryHealth::Ready;
    }

    /// A look did not work.
    pub fn mark_inventory_unavailable(&mut self)
        ensures
            *final(self) == old(self).after_failure(),
    {
        if *self != InventoryHealth::Ready {
            *self = InventoryHealth::Unavailable;
        }
    }
}

impl Default for InventoryHealth {
    fn default() -> (health: Self)
        ensures
            health == InventoryHealth::Scanning,
    {
        InventoryHealth::Scanning
    }
}

/// A device the agent works with.
#[derive(Debug, PartialEq, Eq)]
pub struct AgentDevice {
    /// The key its settings are kept under.
    pub config_key: String,
    /// What it is called.
    pub model_key: String,
    /// How it is reached.
    pub route: Option<DeviceRoute>,
    pub slot: u8,
    pub serial: Option<String>,
    pub unit_id: [u8; 4],
    pub capabilities: Option<Capabilities>,
    pub kind: DeviceKind,
    pub light_capabilities: Option<LightCapabilities>,
    pub online: bool,
}

/// The model of an [`AgentDevice`].
#[verifier::ext_equal]
pub ghost struct AgentDeviceModel {
    pub config_key: Seq<char>,
    pub model_key: Seq<char>,
    pub route: Option<RouteModel>,
    pub slot: u8,
    pub serial: Option<Seq<char>>,
    pub unit_id: Seq<u8>,
    pub capabilities: Option<Capabilities>,
    pub kind: DeviceKind,
    pub light_capabilities: Option<LightCapabilities>,
    pub online: bool,
}

impl View for AgentDevice {
    type V = AgentDeviceModel;

    open spec fn view(&self) -> AgentDeviceModel {
        AgentDeviceModel {
            config_key: self.config_key@,
            model_key: self.model_key@,
            route: opt(self.route),
            slot: self.slot,
            serial: opt(self.serial),
            unit_id: self.unit_id@,
            capabilities: self.capabilities,
            kind: self.kind,
            light_capabilities: self.light_capabilities,
            online: self.online,
        }
    }
}

impl AgentDeviceModel {
    /// What tells the device from every other, as far as it can be told.
    pub open spec fn stable(self) -> StableModel {
        StableModel::of_parts(self.route, self.slot, self.serial, self.unit_id)
    }

    /// Whether the agent can write to the device now.
    pub open spec fn reachable(self) -> bool {
        self.online && self.route is Some
    }

    /// Whether inputs of the device can be captured: a device without HID++ has
    /// none.
    pub open spec fn capturable(self) -> bool {
        !(self.route matches Some(RouteModel::RawHid { .. }))
    }

    /// What the device is known by from one run to the next.
    pub open spec fn journal_id(self) -> Option<Seq<char>> {
        if self.capabilities matches Some(capabilities) && capabilities.touchpad_raw_xy {
            IdentityModel::of_parts(self.serial, self.unit_id).config_key()
        } else {
            None
        }
    }
}

impl AgentDevice {
    /// What tells the device from every other, as far as it can be told.
    pub fn stable_id(&self) -> (stable: DeviceStableId)
        ensures
            stable@ == self@.stable(),
    {
        let serial = match &self.serial {
            Some(serial) => Some(serial.as_str()),
            None => None,
        };
        let route = match &self.route {
            Some(route) => Some(route),
            None => None,
        };
        DeviceStableId::from_parts(route, self.slot, serial, self.unit_id)
    }

    /// Whether the agent can write to the device now.
    pub fn is_reachable(&self) -> (yes: bool)
        ensures
            yes == self@.reachable(),
    {
        self.online && self.route.is_some()
    }

    fn is_capturable(&self) -> (yes: bool)
        ensures
            yes == self@.capturable(),
    {
        match &self.route {
            Some(
                DeviceRoute::RawHid {
                    vendor_id: _,
                    product_id: _,
                    usage_page: _,
                    usage_id: _,
                    identity: _,
                },
            ) => false,
            _ => true,
        }
    }

    fn journal_id(&self) -> (id: Option<String>)
        ensures
            opt(id) == self@.journal_id(),
    {
        match self.capabilities {
            Some(capabilities) => {
                if !capabilities.touchpad_raw_xy {
                    return None;
                }
                let serial = match &self.serial {
                    Some(serial) => Some(serial.as_str()),
                    None => None,
                };
                DeviceIdentity::from_parts(serial, self.unit_id).config_key()
            },
            None => None,
        }
    }
}

/// No unit id.
pub open spec fn no_unit() -> Seq<u8> {
    seq![0, 0, 0, 0]
}

/// A device of an enumeration, where its settings can be kept.
pub open spec fn agent_device(
    config: ConfigModel,
    inventory: DeviceInventory,
    device: PairedDevice,
) -> Option<AgentDeviceModel> {
    let serial = match device.model_info {
        Some(model) => opt(model.serial_number),
        None => None,
    };
    let unit_id = match device.model_info {
        Some(model) => model.unit_id@,
        None => no_unit(),
    };
    let route = inventory.route_to(device.slot);
    match config.resolved(
        StableModel::of_parts(route, device.slot, serial, unit_id),
        identity_of(device),
    ) {
        Some(config_key) => Some(
            AgentDeviceModel {
                config_key,
                model_key: match device.codename {
                    Some(name) => name@,
                    None => inventory.receiver.name@,
                },
                route,
                slot: device.slot,
                serial,
                unit_id,
                capabilities: device.capabilities,
                kind: device.kind,
                light_capabilities: None,
                online: device.online,
            },
        ),
        None => None,
    }
}

/// A device without HID++, where its settings can be kept.
pub open spec fn agent_light(
    config: ConfigModel,
    device: StandaloneModel,
) -> Option<AgentDeviceModel> {
    let route = Some(
        RouteModel::RawHid {
            vendor_id: device.vendor_id,
            product_id: device.product_id,
            usage_page: device.usage_page,
            usage_id: device.usage_id,
            identity: device.identity,
        },
    );
    match config.resolved(
        StableModel::of_parts(route, DIRECT_DEVICE_INDEX, device.serial_number, device.unit_id),
        Some(IdentityModel::of_parts(device.serial_number, device.unit_id)),
    ) {
        Some(config_key) => Some(
            AgentDeviceModel {
                config_key,
                model_key: device.display_name,
                route,
                slot: DIRECT_DEVICE_INDEX,
                serial: device.serial_number,
                unit_id: device.unit_id,
                capabilities: device.capabilities,
                kind: device.kind,
                light_capabilities: device.light_capabilities,
                online: device.online,
            },
        ),
        None => None,
    }
}

/// A list with one more entry, where there is one.
pub open spec fn and_perhaps<A>(list: Seq<A>, entry: Option<A>) -> Seq<A> {
    match entry {
        Some(entry) => list.push(entry),
        None => list,
    }
}

/// A list with the devices of one inventory.
pub open spec fn with_paired(
    list: Seq<AgentDeviceModel>,
    config: ConfigModel,
    inventory: DeviceInventory,
    devices: Seq<PairedDevice>,
) -> Seq<AgentDeviceModel>
    decreases devices.len(),
{
    if devices.len() == 0 {
        list
    } else {
        and_perhaps(
            with_paired(list, config, inventory, devices.drop_last()),
            agent_device(config, inventory, devices.last()),
        )
    }
}

/// The devices of several inventories.
pub open spec fn of_inventories(
    config: ConfigModel,
    inventories: Seq<DeviceInventory>,
) -> Seq<AgentDeviceModel>
    decreases inventories.len(),
{
    if inventories.len() == 0 {
        Seq::empty()
    } else {
        with_paired(
            of_inventories(config, inventories.drop_last()),
            config,
            inventories.last(),
            inventories.last().paired@,
        )
    }
}

/// A list with devices without HID++.
pub open spec fn with_standalone(
    list: Seq<AgentDeviceModel>,
    config: ConfigModel,
    devices: Seq<StandaloneModel>,
) -> Seq<AgentDeviceModel>
    decreases devices.len(),
{
    if devices.len() == 0 {
        list
    } else {
        and_perhaps(
            with_standalone(list, config, devices.drop_last()),
            agent_light(config, devices.last()),
        )
    }
}

/// The devices the agent works with.
pub open spec fn all_devices(
    config: ConfigModel,
    inventories: Seq<DeviceInventory>,
    standalone: Seq<StandaloneModel>,
) -> Seq<AgentDeviceModel> {
    with_standalone(of_inventories(config, inventories), config, standalone)
}

fn build_device(config: &Config, inventory: &DeviceInventory, device: &PairedDevice) -> (built:
    Option<AgentDevice>)
    ensures
        opt(built) == agent_device(config@, *inventory, *device),
{
    let mut serial: Option<String> = None;
    let mut unit_id: [u8; 4] = [0, 0, 0, 0];
    assert(unit_id@ =~= no_unit());
    if let Some(model) = &device.model_info {
        serial = replicate_opt(&model.serial_number);
        unit_id = model.unit_id;
    }
    let route = DeviceRoute::device_route_for(inventory, device.slot);
    let route_ref = match &route {
        Some(route) => Some(route),
        None => None,
    };
    let serial_ref = match &serial {
        Some(serial) => Some(serial.as_str()),
        None => None,
    };
    let stable = DeviceStableId::from_parts(route_ref, device.slot, serial_ref, unit_id);
    let identity = journal_identity(device);
    let identity_ref = match &identity {
        Some(identity) => Some(identity),
        None => None,
    };
    match config.resolve_device_key(&stable, identity_ref) {
        Some(key) => Some(
            AgentDevice {
                config_key: key.into_string(),
                model_key: match &device.codename {
                    Some(name) => name.replicate(),
                    None => inventory.receiver.name.replicate(),
                },
                route,
                slot: device.slot,
                serial,
                unit_id,
                capabilities: device.capabilities,
                kind: device.kind,
                light_capabilities: None,
                online: device.online,
            },
        ),
        None => None,
    }
}

fn build_light(config: &Config, device: &StandaloneDevice) -> (built: Option<AgentDevice>)
    ensures
        opt(built) == agent_light(config@, device@),
{
    let route = DeviceRoute::RawHid {
        vendor_id: device.address.vendor_id,
        product_id: device.address.product_id,
        usage_page: device.address.usage_page,
        usage_id: device.address.usage_id,
        identity: device.address.identity.replicate(),
    };
    let serial_ref = match &device.serial_number {
        Some(serial) => Some(serial.as_str()),
        None => None,
    };
    let stable = DeviceStableId::from_parts(
        Some(&route),
        DIRECT_DEVICE_INDEX,
        serial_ref,
        device.unit_id,
    );
    let identity = DeviceIdentity::from_parts(serial_ref, device.unit_id);
    match config.resolve_device_key(&stable, Some(&identity)) {
        Some(key) => Some(
            AgentDevice {
                config_key: key.into_string(),
                model_key: device.display_name.replicate(),
                route: Some(route),
                slot: DIRECT_DEVICE_INDEX,
                serial: replicate_opt(&device.serial_number),
                unit_id: device.unit_id,
                capabilities: device.capabilities,
                kind: device.kind,
                light_capabilities: device.light_capabilities,
                online: device.online,
            },
        ),
        None => None,
    }
}

fn append(devices: &mut Vec<AgentDevice>, device: Option<AgentDevice>)
    ensures
        each(final(devices)@) == and_perhaps(each(old(devices)@), opt(device)),
{
    let ghost before = each(devices@);
    if let Some(device) = device {
        let ghost added = device@;
        devices.push(device);
        assert(each(devices@) =~= before.push(added));
    }
}

/// The devices the agent works with: those of every receiver in turn, then those
/// without HID++. A device whose settings nothing would tell from another's is
/// left out.
pub fn build_devices(
    config: &Config,
    inventories: &Vec<DeviceInventory>,
    standalone: &Vec<StandaloneDevice>,
) -> (devices: Vec<AgentDevice>)
    ensures
        each(devices@) == all_devices(config@, inventories@, each(standalone@)),
{
    let mut devices: Vec<AgentDevice> = Vec::new();
    let mut i: usize = 0;
    proof {
        assert(inventories@.take(0) =~= Seq::<DeviceInventory>::empty());
        assert(each(devices@) =~= Seq::<AgentDeviceModel>::empty());
    }
    while i < inventories.len()
        invariant
            i <= inventories@.len(),
            each(devices@) == of_inventories(config@, inventories@.take(i as int)),
        decreases inventories@.len() - i,
    {
        let inventory = &inventories[i];
        let ghost start = each(devices@);
        let ghost paired = inventory.paired@;
        let mut j: usize = 0;
        assert(paired.take(0) =~= Seq::<PairedDevice>::empty());
        while j < inventory.paired.len()
            invariant
                paired == inventory.paired@,
                j <= paired.len(),
                each(devices@) == with_paired(start, config@, *inventory, paired.take(j as int)),
            decreases paired.len() - j,
        {
            proof {
                assert(paired.take(j + 1).drop_last() =~= paired.take(j as int));
            }
            append(&mut devices, build_device(config, inventory, &inventory.paired[j]));
            j += 1;
        }
        proof {
            assert(paired.take(j as int) =~= paired);
            assert(inventories@.take(i + 1).drop_last() =~= inventories@.take(i as int));
        }
        i += 1;
    }
    assert(inventories@.take(i as int) =~= inventories@);
    let ghost start = each(devices@);
    let ghost lights = each(standalone@);
    let mut i: usize = 0;
    assert(lights.take(0) =~= Seq::<StandaloneModel>::empty());
    while i < standalone.len()
        invariant
            lights == each(standalone@),
            i <= lights.len(),
            each(devices@) == with_standalone(start, config@, lights.take(i as int)),
        decreases lights.len() - i,
    {
        proof {
            assert(lights.take(i + 1).drop_last() =~= lights.take(i as int));
            assert(lights.take(i + 1).last() == standalone@[i as int]@);
        }
        append(&mut devices, build_light(config, &standalone[i]));
        i += 1;
    }
    assert(lights.take(i as int) =~= lights);
    devices
}

/// Which devices come into question.
pub open spec fn eligible(
    device: AgentDeviceModel,
    selected: Option<Seq<char>>,
    online: bool,
) -> bool {
    device.capturable() && (online ==> device.online) && (selected matches Some(key)
        ==> device.config_key == key)
}

/// The first of the devices that come into question.
pub open spec fn first_eligible(
    devices: Seq<AgentDeviceModel>,
    selected: Option<Seq<char>>,
    online: bool,
) -> Option<int>
    decreases devices.len(),
{
    if devices.len() == 0 {
        None
    } else {
        match first_eligible(devices.drop_last(), selected, online) {
            Some(i) => Some(i),
            None => if eligible(devices.last(), selected, online) {
                Some(devices.len() - 1)
            } else {
                None
            },
        }
    }
}

fn find_eligible(devices: &Vec<AgentDevice>, selected: Option<&str>, online: bool) -> (found:
    Option<usize>)
    ensures
        ({
            let key = match selected {
                Some(key) => Some(key@),
                None => None,
            };
            match found {
                Some(i) => i < devices@.len() && first_eligible(each(devices@), key, online)
                    == Some(i as int),
                None => first_eligible(each(devices@), key, online) is None,
            }
        }),
{
    let ghost all = each(devices@);
    let ghost key = match selected {
        Some(key) => Some(key@),
        None => None,
    };
    let mut i: usize = 0;
    assert(all.take(0) =~= Seq::<AgentDeviceModel>::empty());
    while i < devices.len()
        invariant
            all == each(devices@),
            key == (match selected {
                Some(key) => Some(key@),
                None => None,
            }),
            i <= all.len(),
            first_eligible(all.take(i as int), key, online) is None,
        decreases all.len() - i,
    {
        let device = &devices[i];
        proof {
            assert(all.take(i + 1).drop_last() =~= all.take(i as int));
            assert(all.take(i + 1).last() == device@);
        }
        let named = match selected {
            Some(key) => same_text(device.config_key.as_str(), key),
            None => true,
        };
        if named && device.is_capturable() && (!online || device.online) {
            proof {
                lemma_first_stays(all, key, online, i + 1);
            }
            return Some(i);
        }
        i += 1;
    }
    assert(all.take(i as int) =~= all);
    None
}

proof fn lemma_first_stays(
    devices: Seq<AgentDeviceModel>,
    selected: Option<Seq<char>>,
    online: bool,
    n: int,
)
    requires
        0 <= n <= devices.len(),
        first_eligible(devices.take(n), selected, online) is Some,
    ensures
        first_eligible(devices, selected, online) == first_eligible(
            devices.take(n),
            selected,
            online,
        ),
    decreases devices.len(),
{
    if n < devices.len() {
        assert(devices.drop_last().take(n) =~= devices.take(n));
        lemma_first_stays(devices.drop_last(), selected, online, n);
    } else {
        assert(devices.take(n) =~= devices);
    }
}

/// The device that is shown: the one selected where it is online, else the
/// first that is, else the one selected, else the first; never one without
/// inputs where there is another.
pub open spec fn current(devices: Seq<AgentDeviceModel>, selected: Option<Seq<char>>) -> int {
    if selected is Some && first_eligible(devices, selected, true) is Some {
        first_eligible(devices, selected, true).unwrap()
    } else if first_eligible(devices, None, true) is Some {
        first_eligible(devices, None, true).unwrap()
    } else if selected is Some && first_eligible(devices, selected, false) is Some {
        first_eligible(devices, selected, false).unwrap()
    } else if first_eligible(devices, None, false) is Some {
        first_eligible(devices, None, false).unwrap()
    } else {
        0
    }
}

/// The device that is shown.
pub fn pick_current(devices: &Vec<AgentDevice>, selected: Option<&str>) -> (index: usize)
    ensures
        index == current(
            each(devices@),
            match selected {
                Some(key) => Some(key@),
                None => None,
            },
        ),
{
    if selected.is_some() {
        if let Some(i) = find_eligible(devices, selected, true) {
            return i;
        }
    }
    if let Some(i) = find_eligible(devices, None, true) {
        return i;
    }
    if selected.is_some() {
        if let Some(i) = find_eligible(devices, selected, false) {
            return i;
        }
    }
    match find_eligible(devices, None, false) {
        Some(i) => i,
        None => 0,
    }
}

/// How the wheel is to be set, as far as it is to be and can be.
pub open spec fn wheel_mode(config: ConfigModel, device: AgentDeviceModel) -> (
    Option<ScrollResolution>,
    Option<bool>,
) {
    let settings = config.device(device.config_key);
    let route_key = device.stable().route_key();
    match device.capabilities {
        Some(capabilities) => (
            if capabilities.hires_wheel {
                settings.scroll_resolution_on(route_key)
            } else {
                None
            },
            if capabilities.scroll_inversion {
                Some(settings.invert_scroll_on(route_key))
            } else {
                None
            },
        ),
        None => (None, None),
    }
}

/// How the wheel is to be set, as far as it is to be and can be.
pub fn configured_wheel_mode(config: &Config, device: &AgentDevice) -> (mode: (
    Option<ScrollResolution>,
    Option<bool>,
))
    ensures
        mode == wheel_mode(config@, device@),
{
    let capabilities = match device.capabilities {
        Some(capabilities) => capabilities,
        None => {
            return (None, None);
        },
    };
    let route_key = device.stable_id().route_key();
    let (resolution, invert) = match config.devices.get(device.config_key.as_str()) {
        Some(settings) => (
            settings.effective_scroll_resolution(route_key.as_str()),
            settings.effective_invert_scroll(route_key.as_str()),
        ),
        None => (None, false),
    };
    (
        if capabilities.hires_wheel {
            resolution
        } else {
            None
        },
        if capabilities.scroll_inversion {
            Some(invert)
        } else {
            None
        },
    )
}

/// A keyboard that takes other devices along when it switches hosts.
#[derive(Debug, PartialEq, Eq)]
pub struct HostSwitchLink {
    pub keyboard: DeviceRoute,
    pub targets: Vec<DeviceRoute>,
}

/// The model of a [`HostSwitchLink`].
#[verifier::ext_equal]
pub ghost struct LinkModel {
    pub keyboard: RouteModel,
    pub targets: Seq<RouteModel>,
}

impl View for HostSwitchLink {
    type V = LinkModel;

    open spec fn view(&self) -> LinkModel {
        LinkModel { keyboard: self.keyboard@, targets: each(self.targets@) }
    }
}

/// The route to the first device under a key, asleep or not.
pub open spec fn route_of(devices: Seq<AgentDeviceModel>, key: Seq<char>) -> Option<RouteModel>
    decreases devices.len(),
{
    if devices.len() == 0 {
        None
    } else if devices[0].config_key == key && devices[0].route is Some {
        devices[0].route
    } else {
        route_of(devices.skip(1), key)
    }
}

/// The routes to the devices under several keys, as far as there are any.
pub open spec fn routes_of(devices: Seq<AgentDeviceModel>, keys: Seq<Seq<char>>) -> Seq<RouteModel>
    decreases keys.len(),
{
    if keys.len() == 0 {
        Seq::empty()
    } else {
        and_perhaps(routes_of(devices, keys.drop_last()), route_of(devices, keys.last()))
    }
}

/// What a device takes along, where it is reachable and takes any.
pub open spec fn link_of(
    config: ConfigModel,
    devices: Seq<AgentDeviceModel>,
    device: AgentDeviceModel,
) -> Option<LinkModel> {
    let targets = routes_of(devices, config.device(device.config_key).host_switch_targets);
    if device.reachable() && targets.len() > 0 {
        Some(LinkModel { keyboard: device.route.unwrap(), targets })
    } else {
        None
    }
}

/// What some devices take along.
pub open spec fn links_of(
    config: ConfigModel,
    devices: Seq<AgentDeviceModel>,
    some: Seq<AgentDeviceModel>,
) -> Seq<LinkModel>
    decreases some.len(),
{
    if some.len() == 0 {
        Seq::empty()
    } else {
        and_perhaps(
            links_of(config, devices, some.drop_last()),
            link_of(config, devices, some.last()),
        )
    }
}

fn find_route(devices: &Vec<AgentDevice>, key: &str) -> (route: Option<DeviceRoute>)
    ensures
        opt(route) == route_of(each(devices@), key@),
{
    let ghost all = each(devices@);
    let mut i: usize = 0;
    assert(all.skip(0) =~= all);
    while i < devices.len()
        invariant
            all == each(devices@),
            i <= all.len(),
            route_of(all, key@) == route_of(all.skip(i as int), key@),
        decreases all.len() - i,
    {
        proof {
            assert(all.skip(i as int)[0] == devices@[i as int]@);
            assert(all.skip(i as int).skip(1) =~= all.skip(i + 1));
        }
        if same_text(devices[i].config_key.as_str(), key) && devices[i].route.is_some() {
            return replicate_opt(&devices[i].route);
        }
        i += 1;
    }
    None
}

fn find_routes(devices: &Vec<AgentDevice>, keys: &Vec<String>) -> (routes: Vec<DeviceRoute>)
    ensures
        each(routes@) == routes_of(each(devices@), each(keys@)),
{
    let ghost all = each(keys@);
    let mut routes: Vec<DeviceRoute> = Vec::new();
    let mut i: usize = 0;
    proof {
        assert(all.take(0) =~= Seq::<Seq<char>>::empty());
        assert(each(routes@) =~= Seq::<RouteModel>::empty());
    }
    while i < keys.len()
        invariant
            all == each(keys@),
            i <= all.len(),
            each(routes@) == routes_of(each(devices@), all.take(i as int)),
        decreases all.len() - i,
    {
        let ghost before = each(routes@);
        proof {
            assert(all.take(i + 1).drop_last() =~= all.take(i as int));
            assert(all.take(i + 1).last() == keys@[i as int]@);
        }
        if let Some(route) = find_route(devices, keys[i].as_str()) {
            let ghost found = route@;
            routes.push(route);
            assert(each(routes@) =~= before.push(found));
        }
        i += 1;
    }
    assert(all.take(i as int) =~= all);
    routes
}

fn build_link(config: &Config, devices: &Vec<AgentDevice>, device: &AgentDevice) -> (link: Option<
    HostSwitchLink,
>)
    ensures
        opt(link) == link_of(config@, each(devices@), device@),
{
    let targets = match config.devices.get(device.config_key.as_str()) {
        Some(settings) => find_routes(devices, &settings.host_switch_targets),
        None => {
            assert(routes_of(each(devices@), Seq::<Seq<char>>::empty()).len() == 0);
            return None;
        },
    };
    assert(each(targets@).len() == targets@.len());
    if !device.online || targets.len() == 0 {
        return None;
    }
    match &device.route {
        Some(route) => Some(HostSwitchLink { keyboard: route.replicate(), targets }),
        None => None,
    }
}

/// What reachable devices take along when they switch hosts. A device taken
/// along may be asleep.
pub fn host_switch_links(config: &Config, devices: &Vec<AgentDevice>) -> (links: Vec<
    HostSwitchLink,
>)
    ensures
        each(links@) == links_of(config@, each(devices@), each(devices@)),
{
    let ghost all = each(devices@);
    let mut links: Vec<HostSwitchLink> = Vec::new();
    let mut i: usize = 0;
    proof {
        assert(all.take(0) =~= Seq::<AgentDeviceModel>::empty());
        assert(each(links@) =~= Seq::<LinkModel>::empty());
    }
    while i < devices.len()
        invariant
            all == each(devices@),
            i <= all.len(),
            each(links@) == links_of(config@, all, all.take(i as int)),
        decreases all.len() - i,
    {
        let ghost before = each(links@);
        proof {
            assert(all.take(i + 1).drop_last() =~= all.take(i as int));
            assert(all.take(i + 1).last() == devices@[i as int]@);
        }
        if let Some(link) = build_link(config, devices, &devices[i]) {
            let ghost found = link@;
            links.push(link);
            assert(each(links@) =~= before.push(found));
        }
        i += 1;
    }
    assert(all.take(i as int) =~= all);
    links
}

/// What a device is captured for: a device that is switched off is left alone,
/// but for putting its touchpad back.
pub open spec fn plan_of(
    config: ConfigModel,
    device: AgentDeviceModel,
    app: Option<Seq<char>>,
    rearm_generation: u64,
) -> Option<PlanModel> {
    match device.route {
        Some(route) => if config.device(device.config_key).enabled {
            Some(
                PlanModel::of(
                    config,
                    device.config_key,
                    route,
                    app,
                    device.journal_id(),
                    rearm_generation,
                ),
            )
        } else {
            match device.journal_id() {
                Some(id) => Some(
                    PlanModel::recovery(device.config_key, route, id, rearm_generation),
                ),
                None => None,
            }
        },
        None => None,
    }
}

/// What a device is captured for.
pub fn capture_plan_for(
    config: &Config,
    device: &AgentDevice,
    app: Option<&str>,
    rearm_generation: u64,
) -> (plan: Option<DeviceCapturePlan>)
    ensures
        opt(plan) == plan_of(
            config@,
            device@,
            match app {
                Some(app) => Some(app@),
                None => None,
            },
            rearm_generation,
        ),
{
    let route = match &device.route {
        Some(route) => route.replicate(),
        None => {
            return None;
        },
    };
    if config.device_enabled(device.config_key.as_str()) {
        Some(
            plan_for_device_with_touchpad(
                config,
                device.config_key.as_str(),
                route,
                app,
                device.journal_id(),
                rearm_generation,
            ),
        )
    } else {
        match device.journal_id() {
            Some(id) => Some(
                touchpad_recovery_plan(device.config_key.as_str(), route, id, rearm_generation),
            ),
            None => None,
        }
    }
}

/// Once a look has worked, the devices it found stand through looks that do not.
pub proof fn law_a_failed_look_keeps_the_devices(health: InventoryHealth)
    ensures
        health.after_refresh().after_failure() == InventoryHealth::Ready,
        health.after_failure().after_refresh() == InventoryHealth::Ready,
{
}

proof fn lemma_first_is_eligible(
    devices: Seq<AgentDeviceModel>,
    selected: Option<Seq<char>>,
    online: bool,
)
    ensures
        match first_eligible(devices, selected, online) {
            Some(i) => 0 <= i < devices.len() && eligible(devices[i], selected, online),
            None => forall|i: int|
                0 <= i < devices.len() ==> !eligible(#[trigger] devices[i], selected, online),
        },
    decreases devices.len(),
{
    if devices.len() > 0 {
        let fewer = devices.drop_last();
        lemma_first_is_eligible(fewer, selected, online);
        if first_eligible(devices, selected, online) is None {
            assert forall|i: int| 0 <= i < devices.len() implies !eligible(
                #[trigger] devices[i],
                selected,
                online,
            ) by {
                if i < devices.len() - 1 {
                    assert(fewer[i] == devices[i]);
                }
            }
        }
    }
}

/// The device shown is online where any with inputs is, and is the one selected
/// where that one is.
pub proof fn law_the_current_device_is_awake_if_any_is(
    devices: Seq<AgentDeviceModel>,
    selected: Option<Seq<char>>,
    i: int,
)
    requires
        0 <= i < devices.len(),
        devices[i].capturable(),
        devices[i].online,
    ensures
        0 <= current(devices, selected) < devices.len(),
        devices[current(devices, selected)].online,
        devices[current(devices, selected)].capturable(),
        selected == Some(devices[i].config_key) ==> devices[current(devices, selected)].config_key
            == devices[i].config_key,
{
    lemma_first_is_eligible(devices, selected, true);
    lemma_first_is_eligible(devices, None, true);
    assert(eligible(devices[i], None, true));
    if selected == Some(devices[i].config_key) {
        assert(eligible(devices[i], selected, true));
    }
}

/// A device of an enumeration is kept under the key its settings are read under,
/// as it was found: how it is reached, whether it is there, and what it can do.
/// One whose settings can be kept nowhere is left out.
pub proof fn law_a_device_is_as_it_was_found(
    config: ConfigModel,
    inventory: DeviceInventory,
    device: PairedDevice,
)
    ensures
        ({
            let serial = match device.model_info {
                Some(model) => opt(model.serial_number),
                None => None,
            };
            let unit_id = match device.model_info {
                Some(model) => model.unit_id@,
                None => seq![0u8, 0, 0, 0],
            };
            match agent_device(config, inventory, device) {
                Some(built) => {
                    &&& config.resolved(built.stable(), identity_of(device)) == Some(
                        built.config_key,
                    )
                    &&& built.route == inventory.route_to(device.slot)
                    &&& built.slot == device.slot
                    &&& built.online == device.online
                    &&& built.capabilities == device.capabilities
                    &&& built.kind == device.kind
                    &&& built.serial == serial
                    &&& built.unit_id == unit_id
                    &&& device.codename is Some ==> built.model_key == device.codename.unwrap()@
                    &&& device.codename is None ==> built.model_key == inventory.receiver.name@
                    &&& built.light_capabilities is None
                },
                None => config.resolved(
                    StableModel::of_parts(
                        inventory.route_to(device.slot),
                        device.slot,
                        serial,
                        unit_id,
                    ),
                    identity_of(device),
                ) is None,
            }
        }),
{
}

/// A device without HID++ is kept as it was found too, at the end of its own
/// route, with what its light can do.
pub proof fn law_a_light_is_as_it_was_found(config: ConfigModel, device: StandaloneModel)
    ensures
        agent_light(config, device) matches Some(built) ==> {
            &&& config.resolved(
                built.stable(),
                Some(IdentityModel::of_parts(device.serial_number, device.unit_id)),
            ) == Some(built.config_key)
            &&& built.route matches Some(
                RouteModel::RawHid { vendor_id, product_id, usage_page, usage_id, identity },
            ) && vendor_id == device.vendor_id && product_id == device.product_id && usage_page
                == device.usage_page && usage_id == device.usage_id && identity
                == device.identity
            &&& built.online == device.online
            &&& built.capabilities == device.capabilities
            &&& built.light_capabilities == device.light_capabilities
            &&& built.kind == device.kind
            &&& built.model_key == device.display_name
            &&& built.serial == device.serial_number
            &&& built.unit_id == device.unit_id
            &&& !built.capturable()
        },
{
}

proof fn lemma_paired_are_listed(
    list: Seq<AgentDeviceModel>,
    config: ConfigModel,
    inventory: DeviceInventory,
    devices: Seq<PairedDevice>,
    built: AgentDeviceModel,
)
    ensures
        with_paired(list, config, inventory, devices).contains(built) <==> list.contains(built)
            || exists|j: int|
            0 <= j < devices.len() && agent_device(config, inventory, #[trigger] devices[j])
                == Some(built),
    decreases devices.len(),
{
    if devices.len() > 0 {
        let fewer = devices.drop_last();
        let n = devices.len() - 1;
        lemma_paired_are_listed(list, config, inventory, fewer, built);
        let before = with_paired(list, config, inventory, fewer);
        let after = with_paired(list, config, inventory, devices);
        assert(devices[n] == devices.last());
        lemma_and_perhaps(before, agent_device(config, inventory, devices.last()), built);
        if exists|j: int|
            0 <= j < fewer.len() && agent_device(config, inventory, #[trigger] fewer[j]) == Some(
                built,
            ) {
            let j = choose|j: int|
                0 <= j < fewer.len() && agent_device(config, inventory, #[trigger] fewer[j])
                    == Some(built);
            assert(devices[j] == fewer[j]);
        }
        if exists|j: int|
            0 <= j < devices.len() && agent_device(config, inventory, #[trigger] devices[j])
                == Some(built) {
            let j = choose|j: int|
                0 <= j < devices.len() && agent_device(config, inventory, #[trigger] devices[j])
                    == Some(built);
            if j < n {
                assert(devices[j] == fewer[j]);
            }
        }
    }
}

proof fn lemma_and_perhaps<A>(list: Seq<A>, entry: Option<A>, a: A)
    ensures
        and_perhaps(list, entry).contains(a) <==> list.contains(a) || entry == Some(a),
{
    if let Some(one) = entry {
        let more = list.push(one);
        assert(more[list.len() as int] == one);
        if list.contains(a) {
            assert(more[list.index_of(a)] == a);
        }
        if more.contains(a) && a != one {
            assert(list[more.index_of(a)] == a);
        }
    }
}

proof fn lemma_inventories_are_listed(
    config: ConfigModel,
    inventories: Seq<DeviceInventory>,
    built: AgentDeviceModel,
)
    ensures
        of_inventories(config, inventories).contains(built) <==> exists|i: int, j: int|
            found_at(config, inventories, built, i, j),
    decreases inventories.len(),
{
    if inventories.len() > 0 {
        let fewer = inventories.drop_last();
        let n = inventories.len() - 1;
        let last = inventories.last();
        assert(inventories[n] == last);
        lemma_inventories_are_listed(config, fewer, built);
        lemma_paired_are_listed(
            of_inventories(config, fewer),
            config,
            last,
            last.paired@,
            built,
        );
        if exists|i: int, j: int| found_at(config, fewer, built, i, j) {
            let (i, j) = choose|i: int, j: int| found_at(config, fewer, built, i, j);
            assert(fewer[i] == inventories[i]);
            assert(found_at(config, inventories, built, i, j));
        }
        if exists|j: int|
            0 <= j < last.paired@.len() && agent_device(config, last, #[trigger] last.paired@[j])
                == Some(built) {
            let j = choose|j: int|
                0 <= j < last.paired@.len() && agent_device(
                    config,
                    last,
                    #[trigger] last.paired@[j],
                ) == Some(built);
            assert(found_at(config, inventories, built, n, j));
        }
        if exists|i: int, j: int| found_at(config, inventories, built, i, j) {
            let (i, j) = choose|i: int, j: int| found_at(config, inventories, built, i, j);
            if i < n {
                assert(fewer[i] == inventories[i]);
                assert(found_at(config, fewer, built, i, j));
            } else {
                assert(agent_device(config, last, last.paired@[j]) == Some(built));
            }
        }
    }
}

/// Whether a device was found in a place of an inventory.
pub open spec fn found_at(
    config: ConfigModel,
    inventories: Seq<DeviceInventory>,
    built: AgentDeviceModel,
    i: int,
    j: int,
) -> bool {
    &&& 0 <= i < inventories.len()
    &&& 0 <= j < inventories[i].paired@.len()
    &&& agent_device(config, inventories[i], inventories[i].paired@[j]) == Some(built)
}

proof fn lemma_standalone_are_listed(
    list: Seq<AgentDeviceModel>,
    config: ConfigModel,
    devices: Seq<StandaloneModel>,
    built: AgentDeviceModel,
)
    ensures
        with_standalone(list, config, devices).contains(built) <==> list.contains(built)
            || exists|j: int|
            0 <= j < devices.len() && agent_light(config, #[trigger] devices[j]) == Some(built),
    decreases devices.len(),
{
    if devices.len() > 0 {
        let fewer = devices.drop_last();
        let n = devices.len() - 1;
        lemma_standalone_are_listed(list, config, fewer, built);
        let before = with_standalone(list, config, fewer);
        assert(devices[n] == devices.last());
        lemma_and_perhaps(before, agent_light(config, devices.last()), built);
        if exists|j: int|
            0 <= j < fewer.len() && agent_light(config, #[trigger] fewer[j]) == Some(built) {
            let j = choose|j: int|
                0 <= j < fewer.len() && agent_light(config, #[trigger] fewer[j]) == Some(built);
            assert(devices[j] == fewer[j]);
        }
        if exists|j: int|
            0 <= j < devices.len() && agent_light(config, #[trigger] devices[j]) == Some(built) {
            let j = choose|j: int|
                0 <= j < devices.len() && agent_light(config, #[trigger] devices[j]) == Some(
                    built,
                );
            if j < n {
                assert(devices[j] == fewer[j]);
            }
        }
    }
}

/// The agent works with every device that was found, with HID++ or without, and
/// with no other.
pub proof fn law_every_found_device_is_worked_with(
    config: ConfigModel,
    inventories: Seq<DeviceInventory>,
    standalone: Seq<StandaloneModel>,
    built: AgentDeviceModel,
)
    ensures
        all_devices(config, inventories, standalone).contains(built) <==> {
            ||| exists|i: int, j: int| found_at(config, inventories, built, i, j)
            ||| exists|j: int|
                0 <= j < standalone.len() && agent_light(config, #[trigger] standalone[j])
                    == Some(built)
        },
{
    lemma_inventories_are_listed(config, inventories, built);
    lemma_standalone_are_listed(of_inventories(config, inventories), config, standalone, built);
}

/// Where no device with inputs is awake, the one selected is shown, else the
/// first with inputs; devices without inputs are not shown while there is one.
pub proof fn law_an_asleep_selection_is_shown(
    devices: Seq<AgentDeviceModel>,
    selected: Option<Seq<char>>,
    i: int,
)
    requires
        0 <= i < devices.len(),
        devices[i].capturable(),
        forall|j: int|
            0 <= j < devices.len() && (#[trigger] devices[j]).capturable() ==> !devices[j].online,
    ensures
        0 <= current(devices, selected) < devices.len(),
        devices[current(devices, selected)].capturable(),
        selected == Some(devices[i].config_key) ==> devices[current(devices, selected)].config_key
            == devices[i].config_key,
{
    lemma_first_is_eligible(devices, selected, true);
    lemma_first_is_eligible(devices, None, true);
    lemma_first_is_eligible(devices, selected, false);
    lemma_first_is_eligible(devices, None, false);
    assert(eligible(devices[i], None, false));
    if selected == Some(devices[i].config_key) {
        assert(eligible(devices[i], selected, false));
    }
}

/// The wheel is set as the device's settings say on the route it is reached on,
/// and only as far as it can be.
pub proof fn law_the_wheel_is_set_as_far_as_it_can_be(
    config: ConfigModel,
    device: AgentDeviceModel,
)
    ensures
        ({
            let (resolution, inverted) = wheel_mode(config, device);
            let settings = config.device(device.config_key);
            let route = device.stable().route_key();
            let fine = device.capabilities matches Some(can) && can.hires_wheel;
            let turnable = device.capabilities matches Some(can) && can.scroll_inversion;
            &&& !fine ==> resolution is None
            &&& fine && settings.overrides_on(route).scroll_resolution is Some ==> resolution
                == settings.overrides_on(route).scroll_resolution
            &&& fine && settings.overrides_on(route).scroll_resolution is None ==> resolution
                == settings.scroll_resolution
            &&& inverted is Some <==> turnable
            &&& turnable && settings.overrides_on(route).invert_scroll is Some ==> inverted
                == settings.overrides_on(route).invert_scroll
            &&& turnable && settings.overrides_on(route).invert_scroll is None ==> inverted
                == Some(settings.invert_scroll)
        }),
{
}

proof fn lemma_route_of(devices: Seq<AgentDeviceModel>, key: Seq<char>)
    ensures
        route_of(devices, key) matches Some(route) ==> exists|i: int|
            0 <= i < devices.len() && (#[trigger] devices[i]).config_key == key
                && devices[i].route == Some(route),
        route_of(devices, key) is None ==> forall|i: int|
            0 <= i < devices.len() ==> (#[trigger] devices[i]).config_key != key
                || devices[i].route is None,
    decreases devices.len(),
{
    if devices.len() > 0 {
        let rest = devices.skip(1);
        lemma_route_of(rest, key);
        if !(devices[0].config_key == key && devices[0].route is Some) {
            if let Some(route) = route_of(rest, key) {
                let i = choose|i: int|
                    0 <= i < rest.len() && (#[trigger] rest[i]).config_key == key && rest[i].route
                        == Some(route);
                assert(devices[i + 1] == rest[i]);
            } else {
                assert forall|i: int| 0 <= i < devices.len() implies (
                #[trigger] devices[i]).config_key != key || devices[i].route is None by {
                    if i > 0 {
                        assert(devices[i] == rest[i - 1]);
                    }
                }
            }
        }
    }
}

proof fn lemma_routes_of(
    devices: Seq<AgentDeviceModel>,
    keys: Seq<Seq<char>>,
    route: RouteModel,
)
    ensures
        routes_of(devices, keys).contains(route) <==> exists|i: int|
            0 <= i < keys.len() && route_of(devices, #[trigger] keys[i]) == Some(route),
    decreases keys.len(),
{
    if keys.len() > 0 {
        let fewer = keys.drop_last();
        let n = keys.len() - 1;
        lemma_routes_of(devices, fewer, route);
        assert(keys[n] == keys.last());
        lemma_and_perhaps(routes_of(devices, fewer), route_of(devices, keys.last()), route);
        if exists|i: int|
            0 <= i < fewer.len() && route_of(devices, #[trigger] fewer[i]) == Some(route) {
            let i = choose|i: int|
                0 <= i < fewer.len() && route_of(devices, #[trigger] fewer[i]) == Some(route);
            assert(keys[i] == fewer[i]);
        }
        if exists|i: int|
            0 <= i < keys.len() && route_of(devices, #[trigger] keys[i]) == Some(route) {
            let i = choose|i: int|
                0 <= i < keys.len() && route_of(devices, #[trigger] keys[i]) == Some(route);
            if i < n {
                assert(keys[i] == fewer[i]);
            }
        }
    }
}

/// Whether a device under a key has a route.
pub open spec fn can_be_reached(devices: Seq<AgentDeviceModel>, key: Seq<char>) -> bool {
    exists|i: int|
        0 <= i < devices.len() && (#[trigger] devices[i]).config_key == key
            && devices[i].route is Some
}

/// A keyboard that is within reach takes along every device it is to, that is
/// known, asleep or not, and no other; one out of reach, or that takes none,
/// takes nothing along.
pub proof fn law_a_keyboard_takes_its_devices_along(
    config: ConfigModel,
    devices: Seq<AgentDeviceModel>,
    device: AgentDeviceModel,
    route: RouteModel,
)
    ensures
        ({
            let targets = config.device(device.config_key).host_switch_targets;
            match link_of(config, devices, device) {
                Some(link) => {
                    &&& device.online && device.route == Some(link.keyboard)
                    &&& link.targets.contains(route) <==> exists|i: int|
                        0 <= i < targets.len() && route_of(devices, #[trigger] targets[i])
                            == Some(route)
                },
                None => !device.online || device.route is None || forall|i: int|
                    0 <= i < targets.len() ==> !can_be_reached(devices, #[trigger] targets[i]),
            }
        }),
        forall|key: Seq<char>| #[trigger]
            route_of(devices, key) == Some(route) ==> exists|i: int|
                0 <= i < devices.len() && (#[trigger] devices[i]).config_key == key
                    && devices[i].route == Some(route),
{
    let targets = config.device(device.config_key).host_switch_targets;
    let routes = routes_of(devices, targets);
    lemma_routes_of(devices, targets, route);
    if link_of(config, devices, device) is None && device.online && device.route is Some {
        assert(routes.len() == 0);
        assert forall|i: int| 0 <= i < targets.len() implies !can_be_reached(
            devices,
            #[trigger] targets[i],
        ) by {
            lemma_route_of(devices, targets[i]);
            if route_of(devices, targets[i]) is Some {
                let some = route_of(devices, targets[i]).unwrap();
                lemma_routes_of(devices, targets, some);
                assert(routes.contains(some));
            }
        }
    }
    assert forall|key: Seq<char>| #[trigger] route_of(devices, key) == Some(route) implies exists|
        i: int,
    |
        0 <= i < devices.len() && (#[trigger] devices[i]).config_key == key && devices[i].route
            == Some(route) by {
        lemma_route_of(devices, key);
    }
}

/// A device that is switched on is captured by its plan on its route; one that
/// is switched off is left alone, but that its touchpad is put back where it can
/// be told from others. Without a route there is nothing to capture.
pub proof fn law_a_device_switched_off_is_left_alone(
    config: ConfigModel,
    device: AgentDeviceModel,
    app: Option<Seq<char>>,
    generation: u64,
)
    ensures
        ({
            let enabled = config.device(device.config_key).enabled;
            let touchpad = device.capabilities matches Some(can) && can.touchpad_raw_xy;
            let identity = IdentityModel::of_parts(device.serial, device.unit_id);
            let known = touchpad && identity.physical();
            match plan_of(config, device, app, generation) {
                None => device.route is None || !enabled && !known,
                Some(plan) => {
                    &&& device.route == Some(plan.route)
                    &&& plan.config_key == device.config_key
                    &&& plan.rearm_generation == generation
                    &&& plan.session_mode is Continuous <==> enabled
                    &&& plan.session_mode is TouchpadRecovery <==> !enabled
                    &&& plan.touchpad_journal_id is Some <==> known
                    &&& known ==> plan.touchpad_journal_id == Some(identity.key())
                    &&& !enabled ==> plan.divert_buttons.len() == 0 && !plan.capture_touchpad
                    &&& enabled ==> plan.bindings == config.device(
                        device.config_key,
                    ).button_bindings(app)
                },
            }
        }),
{
}

}
