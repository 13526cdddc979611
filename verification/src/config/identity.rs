//! Which settings a device has, given the way it is reached and what it says of
//! itself.
//!
//! Settings are kept under what a device is, so that they follow it from a
//! receiver to a cable. While a device sleeps only the way it is reached is
//! known; the routes recorded for each device find its settings then.

use vstd::prelude::*;
use vstd::string::StrSliceExecFns;

use crate::config::device::{
    bare_link, DeviceConfig, DeviceModel, LinkConfig, LinkOverrides,
};
use crate::config::{Config, ConfigModel};
use crate::device::Capabilities;
use crate::device_order::{
    is_physical_key, lemma_identity_key, DeviceIdentity, DeviceStableId, IdentityModel,
    PhysicalDeviceKey, StableModel,
};
use crate::ordered::{
    each_changed, is_key_order, lemma_all_changed, lemma_none_changed, lemma_one_more_changed, opt,
    some_changed, union_keeping_left, OrderedKey, OrderedMap,
};
use crate::text::{same_text, text_before};

verus! {

/// The model of an optional reference.
pub open spec fn opt_ref<T: View>(value: Option<&T>) -> Option<T::V> {
    match value {
        Some(v) => Some(v@),
        None => None,
    }
}

/// The key a device's settings belong under in the end: its own identity where
/// it has one, else what stands for it on its route.
pub open spec fn canonical_key(stable: StableModel, identity: Option<IdentityModel>) -> Option<
    Seq<char>,
> {
    match identity {
        Some(identity) => if identity.physical() {
            Some(identity.key())
        } else {
            stable.physical_key()
        },
        None => stable.physical_key(),
    }
}

/// The key a device's settings belong under in the end.
pub fn canonical_device_key(
    stable: &DeviceStableId,
    identity: Option<&DeviceIdentity>,
) -> (key: Option<PhysicalDeviceKey>)
    ensures
        opt(key) == canonical_key(stable@, opt_ref(identity)),
{
    match own_key(identity) {
        Some(key) => Some(key),
        None => stable.physical_key(),
    }
}

fn own_key(identity: Option<&DeviceIdentity>) -> (key: Option<PhysicalDeviceKey>)
    ensures
        opt(key) == match opt_ref(identity) {
            Some(identity) => identity.config_key(),
            None => None,
        },
{
    match identity {
        Some(identity) => match identity.config_key() {
            Some(key) => {
                proof {
                    lemma_identity_key(identity@);
                }
                PhysicalDeviceKey::parse(key.as_str())
            },
            None => None,
        },
        None => None,
    }
}

/// Whether `key` is the first device, in key order, that was seen on `route`.
pub open spec fn first_seen_on(
    devices: Map<Seq<char>, DeviceModel>,
    route: Seq<char>,
    key: Seq<char>,
) -> bool {
    &&& seen_on(devices, route, key)
    &&& forall|other: Seq<char>|
        #[trigger] seen_on(devices, route, other) ==> other == key || text_before(key, other)
}

/// Whether the device under `key` was seen on `route`.
pub open spec fn seen_on(
    devices: Map<Seq<char>, DeviceModel>,
    route: Seq<char>,
    key: Seq<char>,
) -> bool {
    devices.contains_key(key) && devices[key].links.contains_key(route)
}

/// Ours where there is one, else theirs.
pub open spec fn first_set<T>(ours: Option<T>, theirs: Option<T>) -> Option<T> {
    match ours {
        Some(_) => ours,
        None => theirs,
    }
}

/// What is overridden on a route after a merge: theirs where both sides have a
/// value and they differ, else what was overridden before.
pub open spec fn kept_apart<T>(ours: Option<T>, theirs: Option<T>, before: Option<T>) -> Option<T> {
    if ours is Some && theirs is Some && ours != theirs {
        theirs
    } else {
        before
    }
}

impl ConfigModel {
    /// Whether a device has settings that the user made.
    pub open spec fn settings_under(self, key: Seq<char>) -> bool {
        self.devices.contains_key(key) && self.devices[key].holds_settings()
    }

    /// The device that was seen on `route`, the first in key order.
    pub open spec fn device_on(self, route: Seq<char>) -> Option<Seq<char>> {
        if exists|key: Seq<char>| first_seen_on(self.devices, route, key) {
            Some(choose|key: Seq<char>| first_seen_on(self.devices, route, key))
        } else {
            None
        }
    }

    /// The key to read and write a device's settings under now.
    pub open spec fn resolved(
        self,
        stable: StableModel,
        identity: Option<IdentityModel>,
    ) -> Option<Seq<char>> {
        match identity {
            Some(identity) => if identity.physical() {
                match stable.physical_key() {
                    Some(legacy) => if !self.settings_under(identity.key())
                        && self.settings_under(legacy) {
                        Some(legacy)
                    } else {
                        Some(identity.key())
                    },
                    None => Some(identity.key()),
                }
            } else {
                self.resolved_by_route(stable)
            },
            None => self.resolved_by_route(stable),
        }
    }

    /// The key of a device that says nothing of itself.
    pub open spec fn resolved_by_route(self, stable: StableModel) -> Option<Seq<char>> {
        match self.device_on(stable.route_key()) {
            Some(key) => if is_physical_key(key) {
                Some(key)
            } else {
                stable.physical_key()
            },
            None => stable.physical_key(),
        }
    }

    /// Every reference to `from` made one to `to`.
    pub open spec fn repointed(self, from: Seq<char>, to: Seq<char>) -> ConfigModel {
        ConfigModel {
            selected_device: if self.selected_device == Some(from) {
                Some(to)
            } else {
                self.selected_device
            },
            devices: each_changed(self.devices, targets_moved(from, to)),
            ..self
        }
    }

    /// The configuration once the device under `canonical` was met on `route`.
    pub open spec fn adopted(
        self,
        canonical: Seq<char>,
        route: Seq<char>,
        capabilities: Option<Capabilities>,
    ) -> ConfigModel {
        let unlinked = each_changed(self.devices, link_dropped_but_from(canonical, route));
        let rest = if route != canonical {
            unlinked.remove(route)
        } else {
            unlinked
        };
        let device = if rest.contains_key(canonical) {
            rest[canonical]
        } else {
            DeviceModel::fresh()
        };
        let met = device.met_on(route, capabilities);
        if route != canonical && unlinked.contains_key(route) {
            ConfigModel {
                devices: rest.insert(canonical, met.folded(unlinked[route], route)),
                ..self
            }.repointed(route, canonical)
        } else {
            ConfigModel { devices: rest.insert(canonical, met), ..self }
        }
    }
}

/// A device with its host switch targets moved from one key to another.
pub open spec fn targets_moved(from: Seq<char>, to: Seq<char>) -> spec_fn(
    Seq<char>,
    DeviceModel,
) -> DeviceModel {
    |key: Seq<char>, device: DeviceModel| device.with_targets_moved(from, to)
}

/// A device without a route, unless it is the one under `canonical`.
pub open spec fn link_dropped_but_from(canonical: Seq<char>, route: Seq<char>) -> spec_fn(
    Seq<char>,
    DeviceModel,
) -> DeviceModel {
    |key: Seq<char>, device: DeviceModel|
        if key == canonical {
            device
        } else {
            DeviceModel { links: device.links.remove(route), ..device }
        }
}

/// `to` for `from`, anything else as it is.
pub open spec fn moved(target: Seq<char>, from: Seq<char>, to: Seq<char>) -> Seq<char> {
    if target == from {
        to
    } else {
        target
    }
}

/// What is recorded of a route.
pub open spec fn link_on(links: Map<Seq<char>, LinkConfig>, route: Seq<char>) -> LinkConfig {
    if links.contains_key(route) {
        links[route]
    } else {
        bare_link()
    }
}

impl DeviceModel {
    /// Host switch targets moved from one key to another.
    pub open spec fn with_targets_moved(self, from: Seq<char>, to: Seq<char>) -> DeviceModel {
        DeviceModel {
            host_switch_targets: Seq::new(
                self.host_switch_targets.len(),
                |i: int| moved(self.host_switch_targets[i], from, to),
            ),
            ..self
        }
    }

    /// The device once it was met on `route`, with what it could do there.
    pub open spec fn met_on(
        self,
        route: Seq<char>,
        capabilities: Option<Capabilities>,
    ) -> DeviceModel {
        let link = LinkConfig {
            capabilities: first_set(capabilities, link_on(self.links, route).capabilities),
            ..link_on(self.links, route)
        };
        DeviceModel { links: self.links.insert(route, link), ..self }
    }

    /// What is recorded of a route that `legacy` was kept under, once `legacy` is
    /// merged in. A value that both sides have, and differ in, is kept as an
    /// override on the route.
    pub open spec fn merged_link(self, legacy: DeviceModel, link: LinkConfig) -> LinkConfig {
        LinkConfig {
            capabilities: match legacy.identity {
                Some(identity) => first_set(link.capabilities, Some(identity.capabilities)),
                None => link.capabilities,
            },
            overrides: LinkOverrides {
                dpi: kept_apart(self.dpi, legacy.dpi, link.overrides.dpi),
                invert_scroll: if legacy.invert_scroll && !self.invert_scroll {
                    Some(true)
                } else {
                    link.overrides.invert_scroll
                },
                scroll_resolution: kept_apart(
                    self.scroll_resolution,
                    legacy.scroll_resolution,
                    link.overrides.scroll_resolution,
                ),
                lighting: kept_apart(self.lighting, legacy.lighting, link.overrides.lighting),
                smartshift: kept_apart(
                    self.smartshift,
                    legacy.smartshift,
                    link.overrides.smartshift,
                ),
            },
        }
    }

    /// The device with the settings of `legacy`, which were kept under `route`,
    /// merged in. What is set here stays.
    pub open spec fn folded(self, legacy: DeviceModel, route: Seq<char>) -> DeviceModel {
        DeviceModel {
            enabled: self.enabled && legacy.enabled,
            custom_name: first_set(self.custom_name, legacy.custom_name),
            gesture_owner: self.gesture_owner,
            identity: first_set(self.identity, legacy.identity),
            links: union_keeping_left(self.links, legacy.links).insert(
                route,
                self.merged_link(
                    legacy,
                    link_on(union_keeping_left(self.links, legacy.links), route),
                ),
            ),
            bindings: union_keeping_left(self.bindings, legacy.bindings),
            disabled_gestures: union_keeping_left(
                self.disabled_gestures,
                legacy.disabled_gestures,
            ),
            per_app_bindings: union_keeping_left(self.per_app_bindings, legacy.per_app_bindings),
            touchpad_gestures: self.touchpad_gestures || legacy.touchpad_gestures,
            action_ring: if self.action_ring == DeviceModel::fresh().action_ring {
                legacy.action_ring
            } else {
                self.action_ring
            },
            dpi_presets: if self.dpi_presets.len() == 0 {
                legacy.dpi_presets
            } else {
                self.dpi_presets
            },
            dpi: first_set(self.dpi, legacy.dpi),
            lighting: first_set(self.lighting, legacy.lighting),
            light: first_set(self.light, legacy.light),
            smartshift: first_set(self.smartshift, legacy.smartshift),
            camera_controls: first_set(self.camera_controls, legacy.camera_controls),
            camera_profiles: union_keeping_left(self.camera_profiles, legacy.camera_profiles),
            camera_profile: first_set(self.camera_profile, legacy.camera_profile),
            thumbwheel_sensitivity: first_set(
                self.thumbwheel_sensitivity,
                legacy.thumbwheel_sensitivity,
            ),
            invert_scroll: self.invert_scroll,
            scroll_resolution: first_set(self.scroll_resolution, legacy.scroll_resolution),
            host_switch_targets: if self.host_switch_targets.len() == 0 {
                legacy.host_switch_targets
            } else {
                self.host_switch_targets
            },
            fn_lock: first_set(self.fn_lock, legacy.fn_lock),
        }
    }
}

fn either<T>(ours: Option<T>, theirs: Option<T>) -> (value: Option<T>)
    ensures
        value == first_set(ours, theirs),
{
    match ours {
        Some(_) => ours,
        None => theirs,
    }
}

fn merged_link_of(
    device: &DeviceConfig,
    legacy: &DeviceConfig,
    link: LinkConfig,
) -> (merged: LinkConfig)
    ensures
        merged == device@.merged_link(legacy@, link),
{
    let mut merged = link;
    if let Some(identity) = &legacy.identity {
        merged.capabilities = either(link.capabilities, Some(identity.capabilities));
    }
    if let (Some(ours), Some(theirs)) = (device.dpi, legacy.dpi) {
        if ours != theirs {
            merged.overrides.dpi = Some(theirs);
        }
    }
    if let (Some(ours), Some(theirs)) = (device.scroll_resolution, legacy.scroll_resolution) {
        if ours != theirs {
            merged.overrides.scroll_resolution = Some(theirs);
        }
    }
    if let (Some(ours), Some(theirs)) = (device.lighting, legacy.lighting) {
        if ours != theirs {
            merged.overrides.lighting = Some(theirs);
        }
    }
    if let (Some(ours), Some(theirs)) = (device.smartshift, legacy.smartshift) {
        if ours != theirs {
            merged.overrides.smartshift = Some(theirs);
        }
    }
    if legacy.invert_scroll && !device.invert_scroll {
        merged.overrides.invert_scroll = Some(true);
    }
    merged
}

/// Merge the settings that were kept under a route into those of the device.
pub fn fold(device: &mut DeviceConfig, legacy: DeviceConfig, route_key: &str)
    ensures
        final(device)@ == old(device)@.folded(legacy@, route_key@),
{
    let ghost ours = device@;
    let mut legacy = legacy;
    let ghost theirs = legacy@;
    let mut links: OrderedMap<String, LinkConfig> = OrderedMap::new();
    std::mem::swap(&mut links, &mut legacy.links);
    assert(legacy@ =~= (DeviceModel { links: Map::empty(), ..theirs }));
    device.links.absorb(links);
    let link = match device.links.get(route_key) {
        Some(link) => *link,
        None => LinkConfig::default(),
    };
    let merged = merged_link_of(device, &legacy, link);
    assert(merged == ours.merged_link(
        theirs,
        link_on(union_keeping_left(ours.links, theirs.links), route_key@),
    ));
    let _ = device.links.insert(route_key.to_owned(), merged);
    fold_maps(device, &mut legacy);
    device.dpi = either(device.dpi, legacy.dpi);
    device.scroll_resolution = either(device.scroll_resolution, legacy.scroll_resolution);
    device.lighting = either(device.lighting, legacy.lighting);
    device.smartshift = either(device.smartshift, legacy.smartshift);
    device.light = either(device.light, legacy.light);
    device.camera_controls = either(device.camera_controls, legacy.camera_controls);
    device.thumbwheel_sensitivity =
        either(device.thumbwheel_sensitivity, legacy.thumbwheel_sensitivity);
    device.fn_lock = either(device.fn_lock, legacy.fn_lock);
    if device.camera_profile.is_none() {
        device.camera_profile = legacy.camera_profile;
    }
    if device.custom_name.is_none() {
        device.custom_name = legacy.custom_name;
    }
    if device.identity.is_none() {
        device.identity = legacy.identity;
    }
    if legacy.touchpad_gestures.enabled {
        device.touchpad_gestures = legacy.touchpad_gestures;
    }
    if device.dpi_presets.len() == 0 {
        device.dpi_presets = legacy.dpi_presets;
    }
    if device.host_switch_targets.len() == 0 {
        device.host_switch_targets = legacy.host_switch_targets;
    }
    if device.action_ring.is_default() {
        device.action_ring = legacy.action_ring;
    }
    if !legacy.enabled {
        device.enabled = false;
    }
    assert(device@ =~= ours.folded(theirs, route_key@));
}

/// The maps of a merge: an entry is taken where there is none under its key.
fn fold_maps(device: &mut DeviceConfig, legacy: &mut DeviceConfig)
    ensures
        final(device)@ == (DeviceModel {
            bindings: union_keeping_left(old(device)@.bindings, old(legacy)@.bindings),
            disabled_gestures: union_keeping_left(
                old(device)@.disabled_gestures,
                old(legacy)@.disabled_gestures,
            ),
            per_app_bindings: union_keeping_left(
                old(device)@.per_app_bindings,
                old(legacy)@.per_app_bindings,
            ),
            camera_profiles: union_keeping_left(
                old(device)@.camera_profiles,
                old(legacy)@.camera_profiles,
            ),
            ..old(device)@
        }),
        final(legacy)@ == (DeviceModel {
            bindings: Map::empty(),
            disabled_gestures: Map::empty(),
            per_app_bindings: Map::empty(),
            camera_profiles: Map::empty(),
            ..old(legacy)@
        }),
{
    let mut bindings = OrderedMap::new();
    std::mem::swap(&mut bindings, &mut legacy.bindings);
    device.bindings.absorb(bindings);
    let mut disabled = OrderedMap::new();
    std::mem::swap(&mut disabled, &mut legacy.disabled_gestures);
    device.disabled_gestures.absorb(disabled);
    let mut per_app = OrderedMap::new();
    std::mem::swap(&mut per_app, &mut legacy.per_app_bindings);
    device.per_app_bindings.absorb(per_app);
    let mut profiles = OrderedMap::new();
    std::mem::swap(&mut profiles, &mut legacy.camera_profiles);
    device.camera_profiles.absorb(profiles);
}

impl DeviceConfig {
    /// Move host switch targets from one key to another.
    fn move_targets(&mut self, from: &str, to: &str)
        ensures
            final(self)@ == old(self)@.with_targets_moved(from@, to@),
    {
        let ghost before = self@.host_switch_targets;
        let n: usize = self.host_switch_targets.len();
        let mut i: usize = 0;
        while i < n
            invariant
                i <= n,
                n == self.host_switch_targets@.len(),
                n == before.len(),
                before == old(self)@.host_switch_targets,
                forall|j: int|
                    0 <= j < i ==> (#[trigger] self.host_switch_targets@[j])@ == moved(
                        before[j],
                        from@,
                        to@,
                    ),
                forall|j: int|
                    i <= j < n ==> (#[trigger] self.host_switch_targets@[j])@ == before[j],
                self@ == (DeviceModel {
                    host_switch_targets: self@.host_switch_targets,
                    ..old(self)@
                }),
            decreases n - i,
        {
            if same_text(self.host_switch_targets[i].as_str(), from) {
                self.host_switch_targets[i] = to.to_owned();
            }
            i += 1;
        }
        assert(self@.host_switch_targets =~= old(self)@.with_targets_moved(
            from@,
            to@,
        ).host_switch_targets);
    }
}

/// When meeting a device on a route that nothing is kept under changes anything.
proof fn lemma_adopting_changes(
    config: ConfigModel,
    canonical: Seq<char>,
    route: Seq<char>,
    capabilities: Option<Capabilities>,
)
    requires
        route == canonical || !config.devices.contains_key(route),
    ensures
        ({
            let unlinked = each_changed(config.devices, link_dropped_but_from(canonical, route));
            let device = config.device(canonical);
            (config.adopted(canonical, route, capabilities) == config) <==> {
                &&& unlinked == config.devices
                &&& device.links.contains_key(route)
                &&& capabilities is Some ==> device.links[route].capabilities == capabilities
            }
        }),
{
    let unlinked = each_changed(config.devices, link_dropped_but_from(canonical, route));
    let device = config.device(canonical);
    let after = config.adopted(canonical, route, capabilities);
    assert(unlinked.remove(route) =~= unlinked || route == canonical);
    assert(after.devices =~= unlinked.insert(canonical, device.met_on(route, capabilities)));
    if after == config {
        assert(config.devices.contains_key(canonical));
        assert(config.devices[canonical].links.contains_key(route));
        assert(device.met_on(route, capabilities) == device);
        assert(device.met_on(route, capabilities).links[route] == device.links[route]);
        assert forall|key: Seq<char>| config.devices.contains_key(key) implies unlinked[key]
            == config.devices[key] by {
            if key != canonical {
                assert(after.devices[key] == unlinked[key]);
            }
        }
        assert(unlinked =~= config.devices);
    }
    if unlinked == config.devices && device.links.contains_key(route) && (capabilities is Some
        ==> device.links[route].capabilities == capabilities) {
        assert(config.devices.contains_key(canonical));
        assert(device.met_on(route, capabilities) =~= device);
        assert(after.devices =~= config.devices);
    }
}

impl Config {
    fn has_settings(&self, key: &str) -> (yes: bool)
        ensures
            yes == self@.settings_under(key@),
    {
        match self.devices.get(key) {
            Some(device) => device.holds_settings(),
            None => false,
        }
    }

    fn device_seen_on(&self, route: &str) -> (key: Option<&String>)
        ensures
            opt_ref(key) == self@.device_on(route@),
    {
        let n: usize = self.devices.len();
        let mut i: usize = 0;
        let ghost order = self.devices.order();
        while i < n
            invariant
                n == order.len(),
                order == self.devices.order(),
                is_key_order::<String, DeviceModel>(order, self@.devices),
                i <= n,
                forall|j: int| 0 <= j < i ==> !seen_on(self@.devices, route@, #[trigger] order[j]),
            decreases n - i,
        {
            if self.devices.value_at(i).links.contains_key(route) {
                let key = self.devices.key_at(i);
                proof {
                    assert forall|other: Seq<char>| #[trigger]
                        seen_on(self@.devices, route@, other) implies other == key@
                        || text_before(key@, other) by {
                        let j = order.index_of(other);
                        assert(order.contains(other));
                        assert(order[j] == other);
                    }
                    assert(first_seen_on(self@.devices, route@, key@));
                    let found = choose|k: Seq<char>| first_seen_on(self@.devices, route@, k);
                    assert(first_seen_on(self@.devices, route@, found));
                    assert(seen_on(self@.devices, route@, found));
                    assert(seen_on(self@.devices, route@, key@));
                    if found != key@ {
                        String::before_transitive(found, key@, found);
                        String::before_irreflexive(found);
                    }
                }
                return Some(key);
            }
            i += 1;
        }
        proof {
            assert forall|key: Seq<char>| !seen_on(self@.devices, route@, key) by {
                if seen_on(self@.devices, route@, key) {
                    let j = order.index_of(key);
                    assert(order.contains(key));
                    assert(order[j] == key);
                }
            }
        }
        None
    }

    /// The key to read and write a device's settings under.
    ///
    /// The device's own identity is preferred, unless its settings are still
    /// kept under what stood for it on its route. A device that says nothing of
    /// itself is found by the routes recorded for it.
    pub fn resolve_device_key(
        &self,
        stable: &DeviceStableId,
        identity: Option<&DeviceIdentity>,
    ) -> (key: Option<PhysicalDeviceKey>)
        ensures
            opt(key) == self@.resolved(stable@, opt_ref(identity)),
    {
        if let Some(key) = own_key(identity) {
            if let Some(legacy) = stable.physical_key() {
                if !self.has_settings(key.as_str()) && self.has_settings(legacy.as_str()) {
                    return Some(legacy);
                }
            }
            return Some(key);
        }
        let route = stable.route_key();
        if let Some(key) = self.device_seen_on(route.as_str()) {
            if let Some(key) = PhysicalDeviceKey::parse(key.as_str()) {
                return Some(key);
            }
        }
        stable.physical_key()
    }

    fn drop_link_but_from(&mut self, canonical: &str, route_key: &str) -> (changed: bool)
        ensures
            final(self)@ == (ConfigModel {
                devices: each_changed(
                    old(self)@.devices,
                    link_dropped_but_from(canonical@, route_key@),
                ),
                ..old(self)@
            }),
            changed == (final(self)@ != old(self)@),
    {
        let ghost start = self@.devices;
        let ghost f = link_dropped_but_from(canonical@, route_key@);
        let n: usize = self.devices.len();
        let ghost order = self.devices.order();
        let mut changed: bool = false;
        let mut i: usize = 0;
        proof {
            lemma_none_changed(start, order, f);
        }
        while i < n
            invariant
                n == order.len(),
                order == self.devices.order(),
                is_key_order::<String, DeviceModel>(order, start),
                f == link_dropped_but_from(canonical@, route_key@),
                i <= n,
                self@ == (ConfigModel {
                    devices: some_changed(start, order, f, i as int),
                    ..old(self)@
                }),
                start == old(self)@.devices,
                changed == exists|j: int|
                    0 <= j < i && f(#[trigger] order[j], start[order[j]]) != start[order[j]],
            decreases n - i,
        {
            proof {
                lemma_one_more_changed::<String, DeviceModel>(start, order, f, i as int);
            }
            let ghost key = order[i as int];
            if !same_text(self.devices.key_at(i).as_str(), canonical) {
                let device = self.devices.value_at_mut(i);
                let ghost before = device@;
                if device.links.remove(route_key).is_some() {
                    changed = true;
                    assert(before.links.contains_key(route_key@));
                    assert(f(key, start[key]) != start[key]);
                } else {
                    assert(device@ =~= before);
                    assert(f(key, start[key]) =~= start[key]);
                }
            } else {
                assert(self@.devices =~= self@.devices.insert(key, start[key]));
            }
            i += 1;
        }
        proof {
            lemma_all_changed::<String, DeviceModel>(start, order, f);
            let after = each_changed(start, f);
            if changed {
                let j = choose|j: int|
                    0 <= j < n && f(#[trigger] order[j], start[order[j]]) != start[order[j]];
                assert(after[order[j]] != start[order[j]]);
            } else {
                assert forall|key: Seq<char>| start.contains_key(key) implies #[trigger] f(
                    key,
                    start[key],
                ) == start[key] by {
                    let j = order.index_of(key);
                    assert(order.contains(key));
                    assert(order[j] == key);
                }
                assert(after =~= start);
            }
        }
        changed
    }

    fn repoint_references(&mut self, from: &str, to: &str)
        ensures
            final(self)@ == old(self)@.repointed(from@, to@),
    {
        let selected: bool = match &self.selected_device {
            Some(key) => same_text(key.as_str(), from),
            None => false,
        };
        if selected {
            self.selected_device = Some(to.to_owned());
        }
        let ghost middle = self@;
        let ghost start = self@.devices;
        let ghost f = targets_moved(from@, to@);
        let n: usize = self.devices.len();
        let ghost order = self.devices.order();
        let mut i: usize = 0;
        proof {
            lemma_none_changed(start, order, f);
        }
        while i < n
            invariant
                n == order.len(),
                order == self.devices.order(),
                is_key_order::<String, DeviceModel>(order, start),
                f == targets_moved(from@, to@),
                i <= n,
                self@ == (ConfigModel {
                    devices: some_changed(start, order, f, i as int),
                    ..middle
                }),
            decreases n - i,
        {
            proof {
                lemma_one_more_changed::<String, DeviceModel>(start, order, f, i as int);
            }
            let device = self.devices.value_at_mut(i);
            device.move_targets(from, to);
            i += 1;
        }
        proof {
            lemma_all_changed::<String, DeviceModel>(start, order, f);
        }
    }

    /// Record that the device under `canonical` was met on a route, with what it
    /// could do there, and merge in whatever was kept under that route.
    ///
    /// A route belongs to one device at a time: it is taken from any other. The
    /// result says whether anything changed.
    pub fn adopt_route(
        &mut self,
        canonical: &PhysicalDeviceKey,
        route_key: &str,
        capabilities: Option<Capabilities>,
    ) -> (changed: bool)
        ensures
            final(self)@ == old(self)@.adopted(canonical@, route_key@, capabilities),
            changed == (final(self)@ != old(self)@),
    {
        let ghost start = self@;
        let mut changed: bool = self.drop_link_but_from(canonical.as_str(), route_key);
        let ghost unlinked = self@.devices;
        let legacy = if same_text(route_key, canonical.as_str()) {
            None
        } else {
            self.devices.remove(route_key)
        };
        let ghost rest = self@.devices;
        proof {
            if legacy is None && route_key@ != canonical@ {
                assert(rest =~= unlinked);
            }
        }
        let device = self.devices.get_or_insert(
            canonical.as_str().to_owned(),
            DeviceConfig::default(),
        );
        let ghost before = device@;
        let known = match device.links.get(route_key) {
            Some(link) => Some(*link),
            None => None,
        };
        let mut link = match known {
            Some(link) => link,
            None => {
                changed = true;
                LinkConfig::default()
            },
        };
        if capabilities.is_some() && link.capabilities != capabilities {
            link.capabilities = capabilities;
            changed = true;
        }
        let _ = device.links.insert(route_key.to_owned(), link);
        assert(device@ =~= before.met_on(route_key@, capabilities));
        let legacy = match legacy {
            Some(legacy) => legacy,
            None => {
                proof {
                    lemma_adopting_changes(start, canonical@, route_key@, capabilities);
                }
                return changed;
            },
        };
        fold(device, legacy, route_key);
        self.repoint_references(route_key, canonical.as_str());
        assert(start.devices.contains_key(route_key@) && !self@.devices.contains_key(route_key@));
        true
    }
}

}
