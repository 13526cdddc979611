//! What holds of configurations as a whole.

use vstd::prelude::*;

use crate::binding::action::ActionModel;
use crate::binding::button::{ButtonId, GestureDirection};
use crate::binding::ring::RingModel;
use crate::binding::shape::{
    default_action, default_directions, default_gesture, BindingModel,
};
use crate::config::device::{
    no_overrides, DeviceIdentityModel, DeviceModel, LinkConfig, RawDeviceConfig,
};
use crate::config::identity::{
    canonical_key, first_seen_on, link_dropped_but_from, link_on, seen_on,
};
use crate::config::migrate::{
    all_moved, brings, destination, dormant, ends_at, left_route, one_moved, rename_of, swipes,
    swipes_first, targets_without_routes, without_route, RenameModel,
};
use crate::config::settings::{CameraControls, GestureOwner};
use crate::config::{file_name, is_executable, profile_key, Config, ConfigModel};
use crate::device::Capabilities;
use crate::device_order::{is_physical_key, IdentityModel, StableModel};
use crate::ordered::{
    each_changed, is_key_order, key_order, lemma_key_order_exists, union_keeping_left, OrderedKey,
};
use crate::text::{after_nth, small_letters};

verus! {

/// Switching gesture mode off and on again for a button that swipes gives back
/// its directions exactly, and leaves everything else as it was.
pub proof fn law_off_and_on_restores_the_directions(device: DeviceModel, button: ButtonId)
    requires
        device.gesture_mode(button),
    ensures
        device.with_gestures_off(button).with_gestures_on(button) == (DeviceModel {
            bindings: device.bindings.insert(button, device.binding_or_default(button)),
            disabled_gestures: device.disabled_gestures.remove(button),
            ..device
        }),
{
    let off = device.with_gestures_off(button);
    assert(off.disabled_gestures.contains_key(button));
    let on = off.with_gestures_on(button);
    assert(on.bindings =~= device.bindings.insert(button, device.binding_or_default(button)));
    assert(on.disabled_gestures =~= device.disabled_gestures.remove(button));
}

/// A button swipes once gesture mode is switched on for it, and does not once it
/// is switched off. Any number of buttons may swipe: the others are not affected.
pub proof fn law_gesture_mode_is_per_button(device: DeviceModel, button: ButtonId)
    ensures
        device.with_gestures_on(button).gesture_mode(button),
        !device.with_gestures_off(button).gesture_mode(button),
        forall|other: ButtonId|
            other != button ==> #[trigger] device.with_gestures_on(button).gesture_mode(other)
                == device.gesture_mode(other),
        forall|other: ButtonId|
            other != button ==> #[trigger] device.with_gestures_off(button).gesture_mode(other)
                == device.gesture_mode(other),
{
}

/// Switching gesture mode off keeps what a plain press did, wherever the
/// directions had a click.
pub proof fn law_switching_off_keeps_the_press(device: DeviceModel, button: ButtonId)
    requires
        device.bindings.contains_key(button),
        device.bindings[button] matches BindingModel::Gesture(map) ==> map.contains_key(
            crate::binding::button::GestureDirection::Click,
        ),
    ensures
        device.with_gestures_off(button).bindings[button].click()
            == device.bindings[button].click(),
{
}

/// Changing one device leaves every other as it was, and what was stored is what
/// is read.
pub proof fn law_devices_are_independent(
    config: ConfigModel,
    key: Seq<char>,
    device: DeviceModel,
    other: Seq<char>,
)
    ensures
        config.with_device(key, device).device(key) == device,
        other != key ==> config.with_device(key, device).device(other) == config.device(other),
        config.with_device(key, device).selected_device == config.selected_device,
        config.with_device(key, device).keyboard == config.keyboard,
{
}

/// An override on a route takes the place of the device's value there, and on a
/// route without one the device's value holds.
pub proof fn law_an_override_shadows_the_device_value(device: DeviceModel, route: Seq<char>)
    ensures
        device.overrides_on(route).dpi is Some ==> device.dpi_on(route) == device.overrides_on(
            route,
        ).dpi,
        device.overrides_on(route).dpi is None ==> device.dpi_on(route) == device.dpi,
        device.overrides_on(route).invert_scroll is Some ==> Some(device.invert_scroll_on(route))
            == device.overrides_on(route).invert_scroll,
        device.overrides_on(route).invert_scroll is None ==> device.invert_scroll_on(route)
            == device.invert_scroll,
        device.overrides_on(route).scroll_resolution is Some ==> device.scroll_resolution_on(route)
            == device.overrides_on(route).scroll_resolution,
        device.overrides_on(route).scroll_resolution is None ==> device.scroll_resolution_on(route)
            == device.scroll_resolution,
        device.overrides_on(route).lighting is Some ==> device.lighting_on(route)
            == device.overrides_on(route).lighting,
        device.overrides_on(route).lighting is None ==> device.lighting_on(route)
            == device.lighting,
        device.overrides_on(route).smartshift is Some ==> device.smartshift_on(route)
            == device.overrides_on(route).smartshift,
        device.overrides_on(route).smartshift is None ==> device.smartshift_on(route)
            == device.smartshift,
        !device.links.contains_key(route) ==> device.overrides_on(route) == no_overrides(),
{
}

/// What is recorded unasked, the identity and the routes, does not make an entry
/// one that holds settings.
pub proof fn law_metadata_is_no_setting(
    device: DeviceModel,
    identity: Option<DeviceIdentityModel>,
    links: Map<Seq<char>, LinkConfig>,
)
    ensures
        (DeviceModel { identity, links, ..device }).holds_settings() == device.holds_settings(),
        !(DeviceModel { identity, links, ..DeviceModel::fresh() }).holds_settings(),
{
    assert((DeviceModel {
        identity: None,
        links: Map::empty(),
        ..(DeviceModel { identity, links, ..device })
    }) =~= (DeviceModel { identity: None, links: Map::empty(), ..device }));
    assert((DeviceModel {
        identity: None,
        links: Map::empty(),
        ..(DeviceModel { identity, links, ..DeviceModel::fresh() })
    }) =~= DeviceModel::fresh());
}

/// Nothing that tells the unit survives in a remembered identity.
pub proof fn law_a_remembered_identity_does_not_tell_the_unit(identity: DeviceIdentityModel)
    ensures
        identity.stripped().stripped() == identity.stripped(),
        identity.stripped().model_info matches Some(model) ==> model.serial_number is None
            && model.unit_id == seq![0u8, 0u8, 0u8, 0u8],
        identity.stripped().display_name == identity.display_name,
        identity.stripped().kind == identity.kind,
        identity.stripped().capabilities == identity.capabilities,
{
}

/// A button set in an application's profile does that while the application is
/// in front, and every other button does what it did.
pub proof fn law_a_profile_takes_precedence(
    device: DeviceModel,
    app: Seq<char>,
    button: ButtonId,
    action: ActionModel,
    other: ButtonId,
)
    ensures
        ({
            let after = device.with_app_binding(app, button, Some(action));
            &&& after.bindings_under(Some(app)).contains_key(button)
            &&& after.bindings_under(Some(app))[button] == BindingModel::Single(action)
            &&& after.bindings_under(None) == device.bindings
            &&& !device.per_app_bindings.contains_key(app) && other != button
                && device.bindings.contains_key(other) ==> after.bindings_under(Some(app))[other]
                == device.bindings[other]
        }),
{
    let profile = if device.per_app_bindings.contains_key(app) {
        device.per_app_bindings[app]
    } else {
        Map::empty()
    };
    let changed = profile.insert(button, action);
    assert(changed.contains_key(button));
    assert(changed != Map::<ButtonId, ActionModel>::empty());
    let after = device.with_app_binding(app, button, Some(action));
    assert(after.per_app_bindings.contains_key(app));
    assert(after.per_app_bindings[app] == changed);
}

/// No profile is kept that holds nothing.
pub proof fn law_empty_profiles_are_pruned(
    device: DeviceModel,
    app: Seq<char>,
    button: ButtonId,
    action: Option<ActionModel>,
    other: Seq<char>,
)
    ensures
        device.with_app_binding(app, button, action).per_app_bindings.contains_key(other)
            ==> device.with_app_binding(app, button, action).per_app_bindings[other] != Map::<
            ButtonId,
            ActionModel,
        >::empty(),
{
}

/// Touchpad triggers keep single actions only, through every change to a device.
pub proof fn law_touchpad_triggers_stay_single(
    device: DeviceModel,
    button: ButtonId,
    binding: BindingModel,
    legacy: DeviceModel,
    route: Seq<char>,
    capabilities: Option<Capabilities>,
)
    requires
        device.touchpad_triggers_are_single(),
        legacy.touchpad_triggers_are_single(),
    ensures
        (button.touchpad() ==> binding is Single) ==> device.with_binding(
            button,
            binding,
        ).touchpad_triggers_are_single(),
        !button.touchpad() ==> device.with_gestures_on(button).touchpad_triggers_are_single(),
        device.with_gestures_off(button).touchpad_triggers_are_single(),
        device.folded(legacy, route).touchpad_triggers_are_single(),
        device.met_on(route, capabilities).touchpad_triggers_are_single(),
        device.unlocked().touchpad_triggers_are_single(),
        DeviceModel::fresh().touchpad_triggers_are_single(),
{
    let folded = device.folded(legacy, route);
    assert forall|b: ButtonId| b.touchpad() && #[trigger] folded.bindings.contains_key(b) implies
        folded.bindings[b] is Single by {
        assert(device.bindings.contains_key(b) || legacy.bindings.contains_key(b));
    }
    assert forall|b: ButtonId| b.touchpad() implies !#[trigger] folded.disabled_gestures.contains_key(
        b,
    ) by {
        assert(!device.disabled_gestures.contains_key(b));
        assert(!legacy.disabled_gestures.contains_key(b));
    }
    let unlocked = device.unlocked();
    assert forall|b: ButtonId| b.touchpad() && #[trigger] unlocked.bindings.contains_key(b) implies
        unlocked.bindings[b] is Single by {
        assert(device.bindings.contains_key(b));
    }
    assert forall|b: ButtonId| b.touchpad() implies !#[trigger] unlocked.disabled_gestures.contains_key(
        b,
    ) by {
        assert(!device.disabled_gestures.contains_key(b));
        assert(device.bindings.contains_key(b) ==> device.bindings[b] is Single);
    }
    let off = device.with_gestures_off(button);
    assert forall|b: ButtonId| b.touchpad() implies !#[trigger] off.disabled_gestures.contains_key(
        b,
    ) by {
        assert(!device.disabled_gestures.contains_key(b));
        assert(device.bindings.contains_key(b) ==> device.bindings[b] is Single);
    }
}

/// Merging keeps what the device has: every value, and every entry of a map.
pub proof fn law_folding_keeps_what_is_set(
    device: DeviceModel,
    legacy: DeviceModel,
    route: Seq<char>,
)
    ensures
        ({
            let folded = device.folded(legacy, route);
            &&& device.dpi is Some ==> folded.dpi == device.dpi
            &&& device.lighting is Some ==> folded.lighting == device.lighting
            &&& device.smartshift is Some ==> folded.smartshift == device.smartshift
            &&& device.scroll_resolution is Some ==> folded.scroll_resolution
                == device.scroll_resolution
            &&& device.light is Some ==> folded.light == device.light
            &&& device.custom_name is Some ==> folded.custom_name == device.custom_name
            &&& device.identity is Some ==> folded.identity == device.identity
            &&& device.bindings.submap_of(folded.bindings)
            &&& device.disabled_gestures.submap_of(folded.disabled_gestures)
            &&& device.per_app_bindings.submap_of(folded.per_app_bindings)
            &&& device.camera_profiles.submap_of(folded.camera_profiles)
            &&& device.links.remove(route).submap_of(folded.links)
        }),
{
}

/// Merging loses nothing that the device did not have itself: what was kept
/// under the route is taken over, and what differs stays in effect on the route.
pub proof fn law_folding_preserves_the_legacy_values(
    device: DeviceModel,
    legacy: DeviceModel,
    route: Seq<char>,
)
    requires
        link_on(union_keeping_left(device.links, legacy.links), route).overrides
            == no_overrides(),
    ensures
        ({
            let folded = device.folded(legacy, route);
            &&& legacy.dpi is Some ==> folded.dpi_on(route) == legacy.dpi
            &&& legacy.lighting is Some ==> folded.lighting_on(route) == legacy.lighting
            &&& legacy.smartshift is Some ==> folded.smartshift_on(route) == legacy.smartshift
            &&& legacy.scroll_resolution is Some ==> folded.scroll_resolution_on(route)
                == legacy.scroll_resolution
            &&& legacy.invert_scroll ==> folded.invert_scroll_on(route)
            &&& legacy.touchpad_gestures ==> folded.touchpad_gestures
            &&& !legacy.enabled ==> !folded.enabled
            &&& device.custom_name is None ==> folded.custom_name == legacy.custom_name
            &&& device.light is None ==> folded.light == legacy.light
            &&& legacy.bindings.dom().subset_of(folded.bindings.dom())
            &&& legacy.per_app_bindings.dom().subset_of(folded.per_app_bindings.dom())
            &&& legacy.links.dom().subset_of(folded.links.dom())
            &&& folded.links.contains_key(route)
        }),
{
}

/// Once a device was met on a route, the route is recorded for that device and
/// for no other.
pub proof fn law_a_route_belongs_to_one_device(
    config: ConfigModel,
    canonical: Seq<char>,
    route: Seq<char>,
    capabilities: Option<Capabilities>,
    key: Seq<char>,
)
    ensures
        seen_on(config.adopted(canonical, route, capabilities).devices, route, key) <==> key
            == canonical,
        capabilities is Some ==> config.adopted(canonical, route, capabilities).device(
            canonical,
        ).links[route].capabilities == capabilities,
{
}

/// Meeting the same device on the same route once more changes nothing.
pub proof fn law_adopting_twice_is_adopting_once(
    config: ConfigModel,
    canonical: Seq<char>,
    route: Seq<char>,
    capabilities: Option<Capabilities>,
)
    ensures
        config.adopted(canonical, route, capabilities).adopted(canonical, route, capabilities)
            == config.adopted(canonical, route, capabilities),
{
    let once = config.adopted(canonical, route, capabilities);
    let unlinked = each_changed(once.devices, link_dropped_but_from(canonical, route));
    assert forall|key: Seq<char>| once.devices.contains_key(key) implies unlinked[key]
        == once.devices[key] by {
        law_a_route_belongs_to_one_device(config, canonical, route, capabilities, key);
        if key != canonical {
            assert(!once.devices[key].links.contains_key(route));
            assert(once.devices[key].links.remove(route) =~= once.devices[key].links);
        }
    }
    assert(unlinked =~= once.devices);
    law_a_route_belongs_to_one_device(config, canonical, route, capabilities, canonical);
    assert(seen_on(once.devices, route, canonical));
    assert(route != canonical ==> !once.devices.contains_key(route));
    let met = once.devices[canonical].met_on(route, capabilities);
    assert(met =~= once.devices[canonical]);
    assert(once.adopted(canonical, route, capabilities).devices =~= once.devices);
}

/// A device that was met on a route is found by the route alone while it sleeps.
pub proof fn law_an_adopted_device_is_found_asleep(
    config: ConfigModel,
    canonical: Seq<char>,
    stable: StableModel,
    capabilities: Option<Capabilities>,
)
    requires
        is_physical_key(canonical),
    ensures
        config.adopted(canonical, stable.route_key(), capabilities).resolved(stable, None) == Some(
            canonical,
        ),
{
    let route = stable.route_key();
    let after = config.adopted(canonical, route, capabilities);
    assert forall|key: Seq<char>| #[trigger] seen_on(after.devices, route, key) implies key
        == canonical by {
        law_a_route_belongs_to_one_device(config, canonical, route, capabilities, key);
    }
    law_a_route_belongs_to_one_device(config, canonical, route, capabilities, canonical);
    assert(first_seen_on(after.devices, route, canonical));
    let found = choose|key: Seq<char>| first_seen_on(after.devices, route, key);
    assert(first_seen_on(after.devices, route, found));
    assert(seen_on(after.devices, route, found));
}

/// Meeting a device leaves every other device as it was, but for the route and
/// for references that follow the device.
pub proof fn law_adopting_leaves_other_devices_alone(
    config: ConfigModel,
    canonical: Seq<char>,
    route: Seq<char>,
    capabilities: Option<Capabilities>,
    other: Seq<char>,
)
    requires
        other != canonical,
        other != route,
        config.devices.contains_key(other),
    ensures
        ({
            let after = config.adopted(canonical, route, capabilities);
            &&& after.devices.contains_key(other)
            &&& (DeviceModel {
                links: config.devices[other].links,
                host_switch_targets: config.devices[other].host_switch_targets,
                ..after.devices[other]
            }) == config.devices[other]
            &&& after.devices[other].links == config.devices[other].links.remove(route)
            &&& after.devices[other].host_switch_targets.len()
                == config.devices[other].host_switch_targets.len()
        }),
{
}

/// A reference to an entry that was merged away names the device it was merged
/// into.
pub proof fn law_references_follow_an_adopted_device(
    config: ConfigModel,
    canonical: Seq<char>,
    route: Seq<char>,
    capabilities: Option<Capabilities>,
    other: Seq<char>,
    i: int,
)
    requires
        route != canonical,
        config.devices.contains_key(route),
    ensures
        ({
            let after = config.adopted(canonical, route, capabilities);
            &&& !after.devices.contains_key(route)
            &&& after.selected_device != Some(route)
            &&& config.selected_device == Some(route) ==> after.selected_device == Some(canonical)
            &&& after.devices.contains_key(other) && 0 <= i
                < after.devices[other].host_switch_targets.len()
                ==> after.devices[other].host_switch_targets[i] != route
        }),
{
}

/// A device with an identity of its own has the same settings however it is
/// reached, once nothing is kept under what stands for it on its routes.
pub proof fn law_settings_follow_the_device(
    config: ConfigModel,
    identity: IdentityModel,
    one: StableModel,
    other: StableModel,
)
    requires
        identity.physical(),
        one.physical_key() matches Some(key) ==> !config.settings_under(key),
        other.physical_key() matches Some(key) ==> !config.settings_under(key),
    ensures
        config.resolved(one, Some(identity)) == config.resolved(other, Some(identity)),
        config.resolved(one, Some(identity)) == identity.config_key(),
{
}

/// While a device's settings are still kept under what stands for it on its
/// route, and none under its own identity, they are read from there.
pub proof fn law_settings_are_read_where_they_are(
    config: ConfigModel,
    identity: IdentityModel,
    stable: StableModel,
)
    requires
        identity.physical(),
        stable.physical_key() matches Some(key) && config.settings_under(key),
    ensures
        config.resolved(stable, Some(identity)) matches Some(key) && config.settings_under(key),
{
}

/// A configuration without a direct route in any key stays as it is.
pub proof fn law_nothing_to_rename_changes_nothing(config: ConfigModel)
    requires
        forall|key: Seq<char>| #[trigger] config.mentions(key) ==> rename_of(key) is None,
    ensures
        config.without_routes() == config,
{
    let names = key_order::<String, RenameModel>(config.renames());
    let none = Seq::<Seq<char>>::empty();
    assert(is_key_order::<String, RenameModel>(none, config.renames()));
    assert(is_key_order::<String, RenameModel>(names, config.renames()));
    if names.len() > 0 {
        assert(config.renames().contains_key(names[0]));
        assert(config.mentions(names[0]));
        assert(false);
    }
    assert(all_moved(config.devices, names) == config.devices);
    let after = each_changed(config.devices, targets_without_routes());
    assert forall|key: Seq<char>| config.devices.contains_key(key) implies after[key]
        == config.devices[key] by {
        let targets = config.devices[key].host_switch_targets;
        let renamed = targets.map_values(|target: Seq<char>| without_route(target));
        assert forall|i: int| 0 <= i < targets.len() implies renamed[i] == targets[i] by {
            assert(targets.contains(targets[i]));
            assert(config.mentions(targets[i]));
        }
        assert(renamed =~= targets);
    }
    assert(after =~= config.devices);
    if let Some(key) = config.selected_device {
        assert(config.mentions(key));
    }
}

proof fn lemma_renames_are_finite(config: ConfigModel)
    requires
        config.devices.dom().finite(),
    ensures
        config.renames().dom().finite(),
{
    let targets_of = |key: Seq<char>| config.devices[key].host_switch_targets.to_set();
    let sets = config.devices.dom().map(targets_of);
    config.devices.dom().lemma_map_finite(targets_of);
    assert forall|targets: Set<Seq<char>>| sets.contains(targets) implies #[trigger]
    targets.finite() by {
        let key = choose|key: Seq<char>|
            config.devices.dom().contains(key) && #[trigger] targets_of(key) == targets;
        vstd::seq_lib::seq_to_set_is_finite(config.devices[key].host_switch_targets);
    }
    sets.lemma_flatten_finite();
    let shown = match config.selected_device {
        Some(key) => Set::empty().insert(key),
        None => Set::empty(),
    };
    let all = config.devices.dom().union(sets.flatten()).union(shown);
    assert forall|key: Seq<char>| config.renames().dom().contains(key) implies all.contains(
        key,
    ) by {
        assert(config.mentions(key));
        if !config.devices.contains_key(key) && config.selected_device != Some(key) {
            let other = choose|other: Seq<char>| #[trigger]
                config.devices.contains_key(other)
                    && config.devices[other].host_switch_targets.contains(key);
            assert(sets.contains(targets_of(other)));
            assert(targets_of(other).contains(key));
        }
    }
    vstd::set_lib::lemma_set_subset_finite(all, config.renames().dom());
}

/// The keys that are renamed, in the order in which they are: the devices'
/// entries move in that order.
pub open spec fn renamed_keys(config: ConfigModel) -> Seq<Seq<char>> {
    key_order::<String, RenameModel>(config.renames())
}

proof fn lemma_renamed_keys(config: Config)
    ensures
        is_key_order::<String, RenameModel>(renamed_keys(config@), config@.renames()),
        forall|i: int|
            0 <= i < renamed_keys(config@).len() ==> rename_of(
                #[trigger] renamed_keys(config@)[i],
            ) is Some,
{
    config.devices.lemma_finite();
    lemma_renames_are_finite(config@);
    lemma_key_order_exists::<String, RenameModel>(config@.renames());
    let names = renamed_keys(config@);
    assert forall|i: int| 0 <= i < names.len() implies rename_of(#[trigger] names[i]) is Some by {
        assert(config@.renames().contains_key(names[i]));
    }
}

proof fn lemma_one_moved(devices: Map<Seq<char>, DeviceModel>, from: Seq<char>)
    requires
        rename_of(from) is Some,
    ensures
        ({
            let moved = one_moved(devices, from);
            let rename = rename_of(from).unwrap();
            &&& forall|end: Seq<char>| #[trigger]
                moved.contains_key(end) <==> devices.contains_key(end) && end != from
                    || devices.contains_key(from) && end == rename.key
            &&& forall|end: Seq<char>, route: Seq<char>|
                moved.contains_key(end) ==> (#[trigger] moved[end].links.contains_key(route) <==> {
                    ||| devices.contains_key(end) && end != from
                        && devices[end].links.contains_key(route)
                    ||| devices.contains_key(from) && end == rename.key && (
                    devices[from].links.contains_key(route) || route == rename.route)
                })
        }),
{
}

proof fn lemma_where_devices_end(
    devices: Map<Seq<char>, DeviceModel>,
    names: Seq<Seq<char>>,
    end: Seq<char>,
)
    requires
        forall|i: int| 0 <= i < names.len() ==> rename_of(#[trigger] names[i]) is Some,
    ensures
        all_moved(devices, names).contains_key(end) <==> exists|key: Seq<char>| #[trigger]
            ends_at(devices, names, key, end),
    decreases names.len(),
{
    if names.len() == 0 {
        if devices.contains_key(end) {
            assert(ends_at(devices, names, end, end));
        }
    } else {
        let fewer = names.drop_last();
        let last = names.last();
        assert(rename_of(names[names.len() - 1]) is Some);
        assert forall|i: int| 0 <= i < fewer.len() implies rename_of(#[trigger] fewer[i]) is Some by {
            assert(fewer[i] == names[i]);
        }
        let before = all_moved(devices, fewer);
        lemma_one_moved(before, last);
        lemma_where_devices_end(devices, fewer, end);
        lemma_where_devices_end(devices, fewer, last);
        if all_moved(devices, names).contains_key(end) {
            if before.contains_key(end) && end != last {
                let key = choose|key: Seq<char>| #[trigger] ends_at(devices, fewer, key, end);
                assert(ends_at(devices, names, key, end));
            } else {
                let key = choose|key: Seq<char>| #[trigger] ends_at(devices, fewer, key, last);
                assert(ends_at(devices, names, key, end));
            }
        }
        if exists|key: Seq<char>| #[trigger] ends_at(devices, names, key, end) {
            let key = choose|key: Seq<char>| #[trigger] ends_at(devices, names, key, end);
            let at = destination(key, fewer);
            assert(ends_at(devices, fewer, key, at));
        }
    }
}

proof fn lemma_what_routes_devices_bring(
    devices: Map<Seq<char>, DeviceModel>,
    names: Seq<Seq<char>>,
    end: Seq<char>,
    route: Seq<char>,
)
    requires
        forall|i: int| 0 <= i < names.len() ==> rename_of(#[trigger] names[i]) is Some,
        all_moved(devices, names).contains_key(end),
    ensures
        all_moved(devices, names)[end].links.contains_key(route) <==> exists|key: Seq<char>|
         #[trigger]
            brings(devices, names, key, end, route),
    decreases names.len(),
{
    if names.len() == 0 {
        if devices[end].links.contains_key(route) {
            assert(brings(devices, names, end, end, route));
        }
    } else {
        let fewer = names.drop_last();
        let last = names.last();
        assert(rename_of(names[names.len() - 1]) is Some);
        assert forall|i: int| 0 <= i < fewer.len() implies rename_of(#[trigger] fewer[i]) is Some by {
            assert(fewer[i] == names[i]);
        }
        let before = all_moved(devices, fewer);
        let after = all_moved(devices, names);
        let rename = rename_of(last).unwrap();
        lemma_one_moved(before, last);
        lemma_where_devices_end(devices, fewer, last);
        lemma_where_devices_end(devices, fewer, end);
        if before.contains_key(end) {
            lemma_what_routes_devices_bring(devices, fewer, end, route);
        }
        if before.contains_key(last) {
            lemma_what_routes_devices_bring(devices, fewer, last, route);
        }
        if after[end].links.contains_key(route) {
            if before.contains_key(end) && end != last && before[end].links.contains_key(route) {
                let key = choose|key: Seq<char>| #[trigger]
                    brings(devices, fewer, key, end, route);
                assert(brings(devices, names, key, end, route));
            } else if before[last].links.contains_key(route) {
                let key = choose|key: Seq<char>| #[trigger]
                    brings(devices, fewer, key, last, route);
                assert(brings(devices, names, key, end, route));
            } else {
                let key = choose|key: Seq<char>| #[trigger] ends_at(devices, fewer, key, last);
                assert(brings(devices, names, key, end, route));
            }
        }
        if exists|key: Seq<char>| #[trigger] brings(devices, names, key, end, route) {
            let key = choose|key: Seq<char>| #[trigger] brings(devices, names, key, end, route);
            let at = destination(key, fewer);
            assert(ends_at(devices, fewer, key, at));
            if at == last {
                if devices[key].links.contains_key(route) || left_route(key, fewer, route) {
                    assert(brings(devices, fewer, key, last, route));
                }
            } else {
                assert(brings(devices, fewer, key, end, route));
            }
        }
    }
}

/// Whether no other device ends up where the one under `key` does.
pub open spec fn ends_alone(
    devices: Map<Seq<char>, DeviceModel>,
    names: Seq<Seq<char>>,
    key: Seq<char>,
) -> bool {
    &&& devices.contains_key(key)
    &&& forall|other: Seq<char>| #[trigger]
        ends_at(devices, names, other, destination(key, names)) ==> other == key
}

proof fn lemma_alone_keeps_its_settings(
    devices: Map<Seq<char>, DeviceModel>,
    names: Seq<Seq<char>>,
    key: Seq<char>,
)
    requires
        forall|i: int| 0 <= i < names.len() ==> rename_of(#[trigger] names[i]) is Some,
        ends_alone(devices, names, key),
    ensures
        ({
            let end = destination(key, names);
            let moved = all_moved(devices, names);
            &&& moved.contains_key(end)
            &&& moved[end] == (DeviceModel { links: moved[end].links, ..devices[key] })
        }),
    decreases names.len(),
{
    if names.len() > 0 {
        let fewer = names.drop_last();
        let last = names.last();
        assert(rename_of(names[names.len() - 1]) is Some);
        assert forall|i: int| 0 <= i < fewer.len() implies rename_of(#[trigger] fewer[i]) is Some by {
            assert(fewer[i] == names[i]);
        }
        let at = destination(key, fewer);
        let end = destination(key, names);
        assert forall|other: Seq<char>| #[trigger] ends_at(devices, fewer, other, at) implies other
            == key by {
            assert(ends_at(devices, names, other, end));
        }
        lemma_alone_keeps_its_settings(devices, fewer, key);
        let before = all_moved(devices, fewer);
        lemma_one_moved(before, last);
        if at == last {
            lemma_where_devices_end(devices, fewer, end);
            if before.remove(last).contains_key(end) {
                let other = choose|other: Seq<char>| #[trigger]
                    ends_at(devices, fewer, other, end);
                assert(ends_at(devices, names, other, end));
                assert(false);
            }
        } else if before.contains_key(last) && rename_of(last).unwrap().key == at {
            lemma_where_devices_end(devices, fewer, last);
            let other = choose|other: Seq<char>| #[trigger] ends_at(devices, fewer, other, last);
            assert(ends_at(devices, names, other, end));
            assert(false);
        }
    }
}

proof fn lemma_settled_destination(key: Seq<char>, names: Seq<Seq<char>>)
    requires
        rename_of(key) is Some,
        forall|i: int, j: int|
            0 <= i < j < names.len() ==> <String as OrderedKey>::before(
                #[trigger] names[i],
                #[trigger] names[j],
            ),
        !names.contains(without_route(key)) || <String as OrderedKey>::before(
            without_route(key),
            key,
        ),
    ensures
        destination(key, names) == if names.contains(key) {
            without_route(key)
        } else {
            key
        },
        names.contains(key) ==> left_route(key, names, rename_of(key).unwrap().route),
    decreases names.len(),
{
    if names.len() > 0 {
        let fewer = names.drop_last();
        let last = names.last();
        let new = without_route(key);
        assert(names =~= fewer.push(last));
        assert(names[names.len() - 1] == last);
        assert(names.contains(key) <==> fewer.contains(key) || key == last) by {
            if fewer.contains(key) {
                assert(names[fewer.index_of(key)] == key);
            }
            if names.contains(key) && key != last {
                assert(fewer[names.index_of(key)] == key);
            }
        }
        assert(fewer.contains(new) ==> names.contains(new)) by {
            if fewer.contains(new) {
                assert(names[fewer.index_of(new)] == new);
            }
        }
        assert forall|i: int, j: int|
            0 <= i < j < fewer.len() implies <String as OrderedKey>::before(
            #[trigger] fewer[i],
            #[trigger] fewer[j],
        ) by {
            assert(fewer[i] == names[i] && fewer[j] == names[j]);
        }
        lemma_settled_destination(key, fewer);
        if fewer.contains(key) {
            let i = fewer.index_of(key);
            assert(names[i] == key);
            assert(<String as OrderedKey>::before(names[i], names[names.len() - 1]));
            if new == last {
                <String as OrderedKey>::before_transitive(key, new, key);
                <String as OrderedKey>::before_irreflexive(key);
            }
        }
    }
}

/// Once direct routes are taken off the keys, there is an entry exactly where
/// the entry of some device ended up. Its routes are those of the devices that
/// ended up there, and those they were moved off. A device that no other was
/// merged with keeps every setting, but that devices are switched along by the
/// keys without routes.
pub proof fn law_the_keys_and_routes_of_renamed_devices(config: Config)
    ensures
        ({
            let devices = config@.devices;
            let names = renamed_keys(config@);
            let after = config@.without_routes().devices;
            &&& is_key_order::<String, RenameModel>(names, config@.renames())
            &&& forall|end: Seq<char>| #[trigger]
                after.contains_key(end) <==> exists|key: Seq<char>| #[trigger]
                    ends_at(devices, names, key, end)
            &&& forall|end: Seq<char>, route: Seq<char>|
                after.contains_key(end) ==> (#[trigger] after[end].links.contains_key(route)
                    <==> exists|key: Seq<char>| #[trigger]
                    brings(devices, names, key, end, route))
            &&& forall|key: Seq<char>| #[trigger]
                ends_alone(devices, names, key) ==> {
                    let end = destination(key, names);
                    &&& after.contains_key(end)
                    &&& after[end] == (DeviceModel {
                        links: after[end].links,
                        host_switch_targets: devices[key].host_switch_targets.map_values(
                            |target: Seq<char>| without_route(target),
                        ),
                        ..devices[key]
                    })
                }
        }),
{
    let devices = config@.devices;
    let names = renamed_keys(config@);
    let moved = all_moved(devices, names);
    let after = config@.without_routes().devices;
    lemma_renamed_keys(config);
    assert forall|end: Seq<char>| #[trigger]
        after.contains_key(end) <==> exists|key: Seq<char>| #[trigger]
            ends_at(devices, names, key, end) by {
        lemma_where_devices_end(devices, names, end);
    }
    assert forall|end: Seq<char>, route: Seq<char>| after.contains_key(end) implies (
    #[trigger] after[end].links.contains_key(route) <==> exists|key: Seq<char>| #[trigger]
        brings(devices, names, key, end, route)) by {
        lemma_what_routes_devices_bring(devices, names, end, route);
        assert(after[end].links == moved[end].links);
    }
    assert forall|key: Seq<char>| #[trigger] ends_alone(devices, names, key) implies {
        let end = destination(key, names);
        &&& after.contains_key(end)
        &&& after[end] == (DeviceModel {
            links: after[end].links,
            host_switch_targets: devices[key].host_switch_targets.map_values(
                |target: Seq<char>| without_route(target),
            ),
            ..devices[key]
        })
    } by {
        lemma_alone_keeps_its_settings(devices, names, key);
    }
}

/// Taking a direct route off renames a device's entry, the selection and the
/// references to it alike, and the route is kept with the device. This holds
/// unless the new key is itself one that is renamed later: the entry moves on
/// then, and what refers to it does not.
pub proof fn law_references_follow_a_renamed_device(
    config: Config,
    key: Seq<char>,
    other: Seq<char>,
)
    requires
        config@.devices.contains_key(key),
        rename_of(key) is Some,
        !config@.renames().contains_key(without_route(key)) || <String as OrderedKey>::before(
            without_route(key),
            key,
        ),
    ensures
        ({
            let new = without_route(key);
            let names = renamed_keys(config@);
            let after = config@.without_routes();
            &&& destination(key, names) == new
            &&& after.devices.contains_key(new)
            &&& after.devices[new].links.contains_key(rename_of(key).unwrap().route)
            &&& config@.selected_device == Some(key) ==> after.selected_device == Some(new)
            &&& ends_alone(config@.devices, names, other)
                && config@.devices[other].host_switch_targets.contains(key)
                ==> after.devices[destination(other, names)].host_switch_targets.contains(new)
        }),
{
    let devices = config@.devices;
    let names = renamed_keys(config@);
    let after = config@.without_routes();
    let new = without_route(key);
    let route = rename_of(key).unwrap().route;
    law_the_keys_and_routes_of_renamed_devices(config);
    assert(config@.mentions(key));
    assert(config@.renames().contains_key(key));
    assert(names.contains(key));
    assert(names.contains(new) ==> config@.renames().contains_key(new)) by {
        if names.contains(new) {
            assert(names[names.index_of(new)] == new);
        }
    }
    lemma_settled_destination(key, names);
    assert(ends_at(devices, names, key, new));
    assert(brings(devices, names, key, new, route));
    assert(after.devices[new].links.contains_key(route));
    if ends_alone(devices, names, other) && devices[other].host_switch_targets.contains(key) {
        let targets = devices[other].host_switch_targets;
        let i = targets.index_of(key);
        let renamed = targets.map_values(|target: Seq<char>| without_route(target));
        assert(renamed[i] == new);
        assert(after.devices[destination(other, names)].host_switch_targets == renamed);
    }
}

/// Giving up the rule of one swiping button changes nothing of what swipes: only
/// the button that did still does.
pub proof fn law_unlocking_keeps_what_swipes(device: DeviceModel, button: ButtonId)
    ensures
        device.owner() != Some(button) ==> !device.unlocked().gesture_mode(button),
        device.owner() == Some(button) && button.hidpp_gesture_source()
            ==> device.unlocked().gesture_mode(button),
        device.owner() == Some(button) && device.bindings.contains_key(button)
            && device.bindings[button] is Gesture ==> device.unlocked().bindings[button]
            == device.bindings[button],
        device.unlocked().gesture_owner is None,
{
}

/// A direction map that did not swipe comes back when gesture mode is switched
/// on for its button.
pub proof fn law_dormant_maps_come_back(device: DeviceModel, button: ButtonId)
    requires
        dormant(device.bindings, device.owner(), button),
    ensures
        device.unlocked().with_gestures_on(button).bindings[button] == device.bindings[button],
{
}

/// A configuration that is up to date is left as it is, and one that was brought
/// up to date is.
pub proof fn law_upgrading_twice_is_upgrading_once(config: ConfigModel)
    requires
        config.supported(),
    ensures
        config.upgraded().supported(),
        config.upgraded().upgraded() == config.upgraded(),
{
}

/// Whether a merged value is ours where we have one, else theirs.
pub open spec fn takes_over<T>(ours: Option<T>, theirs: Option<T>, merged: Option<T>) -> bool {
    &&& ours is Some ==> merged == ours
    &&& ours is None ==> merged == theirs
}

/// Whether a merged list is ours where we have one, else theirs.
pub open spec fn list_takes_over<T>(ours: Seq<T>, theirs: Seq<T>, merged: Seq<T>) -> bool {
    &&& ours.len() > 0 ==> merged == ours
    &&& ours.len() == 0 ==> merged == theirs
}

/// Whether a merged map holds every entry of ours, the entries of theirs that we
/// have none for, and nothing else.
pub open spec fn map_takes_over<K, T>(ours: Map<K, T>, theirs: Map<K, T>, merged: Map<K, T>) -> bool {
    forall|k: K|
        {
            &&& #[trigger] merged.contains_key(k) <==> ours.contains_key(k)
                || theirs.contains_key(k)
            &&& ours.contains_key(k) ==> merged[k] == ours[k]
            &&& !ours.contains_key(k) && theirs.contains_key(k) ==> merged[k] == theirs[k]
        }
}

/// Merging loses no setting: what the device has set stays, what it has not is
/// taken over from the other entry, value by value, list by list and entry by
/// entry. What was switched on stays on, and a device that was to be left alone
/// is.
pub proof fn law_a_merge_loses_no_setting(
    device: DeviceModel,
    legacy: DeviceModel,
    route: Seq<char>,
)
    ensures
        ({
            let merged = device.folded(legacy, route);
            &&& takes_over(device.custom_name, legacy.custom_name, merged.custom_name)
            &&& takes_over(device.identity, legacy.identity, merged.identity)
            &&& takes_over(device.dpi, legacy.dpi, merged.dpi)
            &&& takes_over(device.lighting, legacy.lighting, merged.lighting)
            &&& takes_over(device.light, legacy.light, merged.light)
            &&& takes_over(device.smartshift, legacy.smartshift, merged.smartshift)
            &&& takes_over(device.camera_controls, legacy.camera_controls, merged.camera_controls)
            &&& takes_over(device.camera_profile, legacy.camera_profile, merged.camera_profile)
            &&& takes_over(device.thumbwheel_sensitivity, legacy.thumbwheel_sensitivity, merged.thumbwheel_sensitivity)
            &&& takes_over(device.scroll_resolution, legacy.scroll_resolution, merged.scroll_resolution)
            &&& takes_over(device.fn_lock, legacy.fn_lock, merged.fn_lock)
            &&& list_takes_over(device.dpi_presets, legacy.dpi_presets, merged.dpi_presets)
            &&& list_takes_over(device.host_switch_targets, legacy.host_switch_targets, merged.host_switch_targets)
            &&& map_takes_over(device.bindings, legacy.bindings, merged.bindings)
            &&& map_takes_over(device.disabled_gestures, legacy.disabled_gestures, merged.disabled_gestures)
            &&& map_takes_over(device.per_app_bindings, legacy.per_app_bindings, merged.per_app_bindings)
            &&& map_takes_over(device.camera_profiles, legacy.camera_profiles, merged.camera_profiles)
            &&& map_takes_over(
                device.links.remove(route),
                legacy.links.remove(route),
                merged.links.remove(route),
            )
            &&& merged.links.contains_key(route)
            &&& device.action_ring != RingModel::unset() ==> merged.action_ring
                == device.action_ring
            &&& device.action_ring == RingModel::unset() ==> merged.action_ring
                == legacy.action_ring
            &&& merged.touchpad_gestures <==> device.touchpad_gestures || legacy.touchpad_gestures
            &&& merged.enabled <==> device.enabled && legacy.enabled
            &&& merged.invert_scroll == device.invert_scroll
            &&& merged.gesture_owner == device.gesture_owner
            &&& device.holds_settings() || legacy.holds_settings() ==> merged.holds_settings()
                || legacy.invert_scroll || legacy.gesture_owner is Some
        }),
{
    let merged = device.folded(legacy, route);
    assert(merged.links.remove(route) =~= union_keeping_left(
        device.links.remove(route),
        legacy.links.remove(route),
    ));
    if !merged.holds_settings() {
        assert((DeviceModel { identity: None, links: Map::empty(), ..merged })
            == DeviceModel::fresh());
        assert(device.bindings =~= Map::empty());
        assert(legacy.bindings =~= Map::empty());
        assert(device.disabled_gestures =~= Map::empty());
        assert(legacy.disabled_gestures =~= Map::empty());
        assert(device.per_app_bindings =~= Map::empty());
        assert(legacy.per_app_bindings =~= Map::empty());
        assert(device.camera_profiles =~= Map::empty());
        assert(legacy.camera_profiles =~= Map::empty());
        assert(device.dpi_presets =~= Seq::empty());
        assert(legacy.dpi_presets =~= Seq::empty());
        assert(device.host_switch_targets =~= Seq::empty());
        assert(legacy.host_switch_targets =~= Seq::empty());
        assert((DeviceModel { identity: None, links: Map::empty(), ..device })
            =~= DeviceModel::fresh());
        if !legacy.invert_scroll && legacy.gesture_owner is None {
            assert((DeviceModel { identity: None, links: Map::empty(), ..legacy })
                =~= DeviceModel::fresh());
        }
    }
}

/// Where both entries have a value and they differ, the device keeps its own,
/// and the other stays in effect on the route it was set for. An override that
/// was there before stays where nothing differs. What the device could do on the
/// route is kept, else taken over from what was known of it.
pub proof fn law_what_differs_stays_on_its_route(
    device: DeviceModel,
    legacy: DeviceModel,
    route: Seq<char>,
)
    ensures
        ({
            let merged = device.folded(legacy, route).links[route];
            let before = if device.links.contains_key(route) {
                Some(device.links[route])
            } else if legacy.links.contains_key(route) {
                Some(legacy.links[route])
            } else {
                None
            };
            let overridden = match before {
                Some(link) => link.overrides,
                None => no_overrides(),
            };
            let known = match before {
                Some(link) => link.capabilities,
                None => None,
            };
            &&& device.dpi is Some && legacy.dpi is Some && device.dpi != legacy.dpi
                ==> merged.overrides.dpi == legacy.dpi
            &&& device.dpi is None || legacy.dpi is None || device.dpi == legacy.dpi
                ==> merged.overrides.dpi == overridden.dpi
            &&& device.scroll_resolution is Some && legacy.scroll_resolution is Some && device.scroll_resolution != legacy.scroll_resolution
                ==> merged.overrides.scroll_resolution == legacy.scroll_resolution
            &&& device.scroll_resolution is None || legacy.scroll_resolution is None || device.scroll_resolution == legacy.scroll_resolution
                ==> merged.overrides.scroll_resolution == overridden.scroll_resolution
            &&& device.lighting is Some && legacy.lighting is Some && device.lighting != legacy.lighting
                ==> merged.overrides.lighting == legacy.lighting
            &&& device.lighting is None || legacy.lighting is None || device.lighting == legacy.lighting
                ==> merged.overrides.lighting == overridden.lighting
            &&& device.smartshift is Some && legacy.smartshift is Some && device.smartshift != legacy.smartshift
                ==> merged.overrides.smartshift == legacy.smartshift
            &&& device.smartshift is None || legacy.smartshift is None || device.smartshift == legacy.smartshift
                ==> merged.overrides.smartshift == overridden.smartshift
            &&& legacy.invert_scroll && !device.invert_scroll
                ==> merged.overrides.invert_scroll == Some(true)
            &&& !legacy.invert_scroll || device.invert_scroll
                ==> merged.overrides.invert_scroll == overridden.invert_scroll
            &&& known is Some ==> merged.capabilities == known
            &&& known is None && legacy.identity is Some ==> merged.capabilities == Some(
                legacy.identity.unwrap().capabilities,
            )
            &&& known is None && legacy.identity is None ==> merged.capabilities is None
        }),
{
}

/// A device that is met for the first time on a route takes over everything that
/// was kept under the route. Scrolling the other way is kept for the route; a
/// device that followed the route now follows the device.
pub proof fn law_a_first_meeting_takes_everything_over(
    config: ConfigModel,
    canonical: Seq<char>,
    route: Seq<char>,
    capabilities: Option<Capabilities>,
)
    requires
        route != canonical,
        config.devices.contains_key(route),
        !config.devices.contains_key(canonical),
    ensures
        ({
            let kept = config.devices[route];
            let after = config.adopted(canonical, route, capabilities).device(canonical);
            &&& (DeviceModel {
                links: kept.links,
                invert_scroll: kept.invert_scroll,
                gesture_owner: kept.gesture_owner,
                host_switch_targets: kept.host_switch_targets,
                ..after
            }) == kept
            &&& after.dpi_presets == kept.dpi_presets
            &&& after.invert_scroll_on(route) == kept.invert_scroll
            &&& after.dpi_on(route) == kept.dpi
            &&& after.lighting_on(route) == kept.lighting
            &&& after.smartshift_on(route) == kept.smartshift
            &&& after.scroll_resolution_on(route) == kept.scroll_resolution
            &&& after.host_switch_targets.len() == kept.host_switch_targets.len()
            &&& forall|i: int|
                0 <= i < kept.host_switch_targets.len() ==> (
                #[trigger] after.host_switch_targets[i]) == if kept.host_switch_targets[i]
                    == route {
                    canonical
                } else {
                    kept.host_switch_targets[i]
                }
        }),
{
    let kept = config.devices[route];
    let unlinked = each_changed(config.devices, link_dropped_but_from(canonical, route));
    let after = config.adopted(canonical, route, capabilities).device(canonical);
    assert(unlinked[route] == (DeviceModel { links: kept.links.remove(route), ..kept }));
    let empty = Map::<ButtonId, BindingModel>::empty();
    assert(union_keeping_left(empty, kept.bindings) =~= kept.bindings);
    assert(after.bindings =~= kept.bindings);
    assert(after.disabled_gestures =~= kept.disabled_gestures);
    assert(after.per_app_bindings =~= kept.per_app_bindings);
    assert(after.camera_profiles =~= kept.camera_profiles);
}

/// A device that is met on a route that nothing is kept under keeps all its
/// settings, and so does one whose own entry is the route's.
pub proof fn law_a_bare_meeting_changes_no_setting(
    config: ConfigModel,
    canonical: Seq<char>,
    route: Seq<char>,
    capabilities: Option<Capabilities>,
)
    requires
        route == canonical || !config.devices.contains_key(route),
    ensures
        ({
            let before = config.device(canonical);
            let after = config.adopted(canonical, route, capabilities);
            &&& (DeviceModel { links: before.links, ..after.device(canonical) }) == before
            &&& after.device(canonical).links.remove(route) == before.links.remove(route)
            &&& after.device(canonical).overrides_on(route) == before.overrides_on(route)
            &&& after.selected_device == config.selected_device
            &&& after.app_settings == config.app_settings
            &&& after.keyboard == config.keyboard
        }),
{
    let before = config.device(canonical);
    let after = config.adopted(canonical, route, capabilities).device(canonical);
    assert(after.links.remove(route) =~= before.links.remove(route));
}

/// References to an entry that was merged away name the device it was merged
/// into, in their place; every other reference stays.
pub proof fn law_references_keep_their_places(
    config: ConfigModel,
    canonical: Seq<char>,
    route: Seq<char>,
    capabilities: Option<Capabilities>,
    other: Seq<char>,
    i: int,
)
    requires
        other != canonical,
        other != route,
        config.devices.contains_key(other),
        0 <= i < config.devices[other].host_switch_targets.len(),
    ensures
        ({
            let target = config.devices[other].host_switch_targets[i];
            let after = config.adopted(canonical, route, capabilities);
            let merged = route != canonical && config.devices.contains_key(route);
            &&& after.devices[other].host_switch_targets[i] == if merged && target == route {
                canonical
            } else {
                target
            }
            &&& after.selected_device == if merged && config.selected_device == Some(route) {
                Some(canonical)
            } else {
                config.selected_device
            }
        }),
{
}

/// Settings are read under the device's own identity, but for one case: only the
/// entry of the slot it sits in holds any. A device that says nothing of itself
/// is known by the route it was last met on, else by its slot.
pub proof fn law_where_settings_are_read(
    config: ConfigModel,
    stable: StableModel,
    identity: IdentityModel,
)
    ensures
        identity.physical() && (config.settings_under(identity.key())
            || stable.physical_key() is None || !config.settings_under(
            stable.physical_key().unwrap(),
        )) ==> config.resolved(stable, Some(identity)) == Some(identity.key()),
        identity.physical() && !config.settings_under(identity.key())
            && stable.physical_key() is Some && config.settings_under(
            stable.physical_key().unwrap(),
        ) ==> config.resolved(stable, Some(identity)) == stable.physical_key(),
        !identity.physical() ==> config.resolved(stable, Some(identity)) == config.resolved(
            stable,
            None,
        ),
        (forall|key: Seq<char>| !#[trigger] seen_on(config.devices, stable.route_key(), key))
            ==> config.resolved(stable, None) == stable.physical_key(),
        forall|key: Seq<char>|
            #[trigger] first_seen_on(config.devices, stable.route_key(), key)
                && is_physical_key(key) ==> config.resolved(stable, None) == Some(key),
{
    let route = stable.route_key();
    assert forall|key: Seq<char>|
        #[trigger] first_seen_on(config.devices, route, key) && is_physical_key(
            key,
        ) implies config.resolved(stable, None) == Some(key) by {
        let found = choose|k: Seq<char>| first_seen_on(config.devices, route, k);
        assert(first_seen_on(config.devices, route, found));
        assert(seen_on(config.devices, route, found));
        assert(seen_on(config.devices, route, key));
        if found != key {
            <String as OrderedKey>::before_transitive(key, found, key);
            <String as OrderedKey>::before_irreflexive(key);
        }
    }
    if forall|key: Seq<char>| !#[trigger] seen_on(config.devices, route, key) {
        if exists|key: Seq<char>| first_seen_on(config.devices, route, key) {
            let key = choose|key: Seq<char>| first_seen_on(config.devices, route, key);
            assert(seen_on(config.devices, route, key));
        }
    }
}

/// Every setting that the user can make counts as one.
pub proof fn law_every_setting_counts(device: DeviceModel)
    ensures
        !device.holds_settings() ==> {
            &&& device.enabled
            &&& !device.touchpad_gestures
            &&& !device.invert_scroll
            &&& device.gesture_owner is None
            &&& device.action_ring == RingModel::unset()
            &&& device.custom_name is None
            &&& device.dpi is None
            &&& device.lighting is None
            &&& device.light is None
            &&& device.smartshift is None
            &&& device.camera_controls is None
            &&& device.camera_profile is None
            &&& device.thumbwheel_sensitivity is None
            &&& device.scroll_resolution is None
            &&& device.fn_lock is None
            &&& device.dpi_presets.len() == 0
            &&& device.host_switch_targets.len() == 0
            &&& device.bindings.dom().is_empty()
            &&& device.disabled_gestures.dom().is_empty()
            &&& device.per_app_bindings.dom().is_empty()
            &&& device.camera_profiles.dom().is_empty()
        },
{
    if !device.holds_settings() {
        assert((DeviceModel { identity: None, links: Map::empty(), ..device })
            == DeviceModel::fresh());
        assert(Map::<ButtonId, BindingModel>::empty().dom() =~= Set::empty());
        assert(Map::<ButtonId, Map<GestureDirection, ActionModel>>::empty().dom() =~= Set::empty());
        assert(Map::<Seq<char>, Map<ButtonId, ActionModel>>::empty().dom() =~= Set::empty());
        assert(Map::<Seq<char>, CameraControls>::empty().dom() =~= Set::empty());
    }
}

/// Switching gesture mode on keeps what the button did: a press becomes the
/// click, and directions that were bound stay; only what was not bound gets its
/// default. Directions that were put away come back as they were.
pub proof fn law_switching_on_keeps_what_was_bound(
    device: DeviceModel,
    button: ButtonId,
    direction: GestureDirection,
)
    ensures
        ({
            let before = device.binding_or_default(button);
            let after = device.with_gestures_on(button);
            let now = after.bindings[button];
            &&& after.bindings.contains_key(button) && now is Gesture
            &&& !after.disabled_gestures.contains_key(button)
            &&& device.disabled_gestures.contains_key(button) ==> now == BindingModel::Gesture(
                device.disabled_gestures[button],
            )
            &&& !device.disabled_gestures.contains_key(button) ==> {
                &&& now->Gesture_0.contains_key(direction)
                &&& !(before is Gesture) && direction is Click ==> now->Gesture_0[direction]
                    == before.click()
                &&& before is Gesture && before->Gesture_0.contains_key(direction)
                    ==> now->Gesture_0[direction] == before->Gesture_0[direction]
                &&& before is Gesture && !before->Gesture_0.contains_key(direction)
                    ==> now->Gesture_0[direction] == default_gesture(direction)@
                &&& !(before is Gesture) && !(direction is Click) ==> now->Gesture_0[direction]
                    == default_gesture(direction)@
            }
            &&& forall|other: ButtonId|
                other != button ==> {
                    &&& #[trigger] after.bindings.contains_key(other)
                        == device.bindings.contains_key(other)
                    &&& device.bindings.contains_key(other) ==> after.bindings[other]
                        == device.bindings[other]
                }
            &&& (DeviceModel {
                bindings: device.bindings,
                disabled_gestures: device.disabled_gestures,
                ..after
            }) == device
        }),
{
}

/// Switching gesture mode off puts the directions away and leaves a press: the
/// click, else the button's default. A button without directions is left alone.
pub proof fn law_switching_off_puts_the_directions_away(device: DeviceModel, button: ButtonId)
    ensures
        ({
            let before = device.binding_or_default(button);
            let after = device.with_gestures_off(button);
            &&& before is Gesture ==> {
                &&& after.disabled_gestures.contains_key(button)
                &&& after.disabled_gestures[button] == before->Gesture_0
                &&& after.bindings.contains_key(button) && after.bindings[button] is Single
                &&& device.bindings.contains_key(button) && before->Gesture_0.contains_key(
                    GestureDirection::Click,
                ) ==> after.bindings[button].click()
                    == before->Gesture_0[GestureDirection::Click]
                &&& !(device.bindings.contains_key(button) && before->Gesture_0.contains_key(
                    GestureDirection::Click,
                )) ==> after.bindings[button].click() == default_action(button)@
            }
            &&& !(before is Gesture) ==> after == device
            &&& forall|other: ButtonId|
                other != button ==> {
                    &&& #[trigger] after.bindings.contains_key(other)
                        == device.bindings.contains_key(other)
                    &&& device.bindings.contains_key(other) ==> after.bindings[other]
                        == device.bindings[other]
                }
            &&& (DeviceModel {
                bindings: device.bindings,
                disabled_gestures: device.disabled_gestures,
                ..after
            }) == device
        }),
{
    let after = device.with_gestures_off(button);
    if !(device.binding_or_default(button) is Gesture) {
        assert(after.bindings =~= device.bindings);
        assert(after =~= device);
    }
}

/// Binding one direction binds that one: the button swipes, its other directions
/// stay, and what a press did stays unless the click is the direction bound.
pub proof fn law_one_direction_is_bound_at_a_time(
    device: DeviceModel,
    button: ButtonId,
    direction: GestureDirection,
    action: ActionModel,
    other: GestureDirection,
)
    ensures
        ({
            let before = device.binding_or_default(button);
            let after = device.with_direction(button, direction, action);
            let now = after.bindings[button];
            &&& after.gesture_mode(button)
            &&& now->Gesture_0.contains_key(direction) && now->Gesture_0[direction] == action
            &&& other != direction && before is Gesture ==> {
                &&& now->Gesture_0.contains_key(other) == before->Gesture_0.contains_key(other)
                &&& before->Gesture_0.contains_key(other) ==> now->Gesture_0[other]
                    == before->Gesture_0[other]
            }
            &&& !(direction is Click) && !(before is Gesture) ==> now.click() == before.click()
            &&& (DeviceModel { bindings: device.bindings, ..after }) == device
        }),
{
}

/// A button set for an application is set for that application and no other;
/// one cleared is no longer, and does what the device says.
pub proof fn law_a_profile_is_changed_button_by_button(
    device: DeviceModel,
    app: Seq<char>,
    button: ButtonId,
    action: ActionModel,
    other_app: Seq<char>,
    other: ButtonId,
)
    ensures
        ({
            let set = device.with_app_binding(app, button, Some(action));
            let cleared = device.with_app_binding(app, button, None);
            let held = |d: DeviceModel, a: Seq<char>, b: ButtonId|
                d.per_app_bindings.contains_key(a) && d.per_app_bindings[a].contains_key(b);
            &&& held(set, app, button) && set.per_app_bindings[app][button] == action
            &&& !held(cleared, app, button)
            &&& other_app != app || other != button ==> {
                &&& held(set, other_app, other) == held(device, other_app, other)
                &&& held(cleared, other_app, other) == held(device, other_app, other)
                &&& held(device, other_app, other) ==> {
                    &&& set.per_app_bindings[other_app][other]
                        == device.per_app_bindings[other_app][other]
                    &&& cleared.per_app_bindings[other_app][other]
                        == device.per_app_bindings[other_app][other]
                }
            }
            &&& (DeviceModel { per_app_bindings: device.per_app_bindings, ..set }) == device
            &&& (DeviceModel { per_app_bindings: device.per_app_bindings, ..cleared }) == device
        }),
{
    let profile = if device.per_app_bindings.contains_key(app) {
        device.per_app_bindings[app]
    } else {
        Map::empty()
    };
    let more = profile.insert(button, action);
    let less = profile.remove(button);
    assert(more.contains_key(button));
    assert(more != Map::<ButtonId, ActionModel>::empty());
    if less.contains_key(other) {
        assert(less != Map::<ButtonId, ActionModel>::empty());
    }
    if device.per_app_bindings.contains_key(other_app)
        && device.per_app_bindings[other_app].contains_key(other) {
        assert(device.per_app_bindings[other_app] != Map::<ButtonId, ActionModel>::empty());
    }
}

proof fn lemma_file_name_without_separators(name: Seq<char>)
    requires
        forall|i: int| 0 <= i < name.len() ==> #[trigger] name[i] != '/' && name[i] != '\\',
    ensures
        file_name(name) == name,
    decreases name.len(),
{
    if name.len() > 0 {
        let fewer = name.drop_last();
        assert forall|i: int| 0 <= i < fewer.len() implies #[trigger] fewer[i] != '/' && fewer[i]
            != '\\' by {
            assert(fewer[i] == name[i]);
        }
        lemma_file_name_without_separators(fewer);
        assert(name[name.len() - 1] == name.last());
        assert(fewer.push(name.last()) =~= name);
    }
}

proof fn lemma_file_name_behind_a_directory(directory: Seq<char>, separator: char, name: Seq<char>)
    requires
        separator == '/' || separator == '\\',
        forall|i: int| 0 <= i < name.len() ==> #[trigger] name[i] != '/' && name[i] != '\\',
    ensures
        file_name(directory.push(separator) + name) == name,
    decreases name.len(),
{
    let path = directory.push(separator) + name;
    if name.len() == 0 {
        assert(path.last() == separator);
        assert(file_name(path) =~= name);
    } else {
        let fewer = name.drop_last();
        assert forall|i: int| 0 <= i < fewer.len() implies #[trigger] fewer[i] != '/' && fewer[i]
            != '\\' by {
            assert(fewer[i] == name[i]);
        }
        lemma_file_name_behind_a_directory(directory, separator, fewer);
        assert(path.drop_last() =~= directory.push(separator) + fewer);
        assert(path.last() == name[name.len() - 1]);
        assert(fewer.push(name.last()) =~= name);
    }
}

/// The profile of an executable counts wherever the executable is installed, and
/// however its name is written, unless the application has a profile of its own.
pub proof fn law_an_executable_is_known_by_its_file_name(
    profiles: Map<Seq<char>, Map<ButtonId, ActionModel>>,
    directory: Seq<char>,
    separator: char,
    stem: Seq<char>,
)
    requires
        separator == '/' || separator == '\\',
        stem.len() > 0,
        forall|i: int| 0 <= i < stem.len() ==> #[trigger] stem[i] != '/' && stem[i] != '\\',
    ensures
        ({
            let name = stem + ".exe"@;
            let app = directory.push(separator) + name;
            let key = "exe:"@ + small_letters(name);
            &&& profiles.contains_key(app) ==> profile_key(profiles, app) == Some(app)
            &&& !profiles.contains_key(app) && profiles.contains_key(key) ==> profile_key(
                profiles,
                app,
            ) == Some(key)
            &&& !profiles.contains_key(app) && !profiles.contains_key(key) ==> profile_key(
                profiles,
                app,
            ) is None
            &&& !profiles.contains_key(stem) && !is_executable(stem) ==> profile_key(
                profiles,
                stem,
            ) is None
        }),
{
    reveal_strlit(".exe");
    let name = stem + ".exe"@;
    assert forall|i: int| 0 <= i < name.len() implies #[trigger] name[i] != '/' && name[i]
        != '\\' by {
        if i < stem.len() {
            assert(name[i] == stem[i]);
        } else {
            assert(name[i] == ".exe"@[i - stem.len()]);
        }
    }
    lemma_file_name_behind_a_directory(directory, separator, name);
    lemma_file_name_without_separators(stem);
    assert(name.skip(name.len() - 4) =~= ".exe"@);
    assert(small_letters(".exe"@) =~= ".exe"@);
}

/// Giving up the rule of one swiping button loses nothing: the button that did
/// keeps its directions; every other button keeps its press, and its directions
/// are put away. What was a press, long or not, stays one.
pub proof fn law_unlocking_loses_nothing(device: DeviceModel, button: ButtonId)
    ensures
        ({
            let after = device.unlocked();
            let swiped = device.owner() == Some(button);
            &&& device.bindings.contains_key(button) ==> {
                let before = device.bindings[button];
                &&& after.bindings.contains_key(button)
                &&& !swiped && before is Gesture ==> {
                    &&& after.bindings[button] is Single
                    &&& before->Gesture_0.contains_key(GestureDirection::Click)
                        ==> after.bindings[button].click()
                        == before->Gesture_0[GestureDirection::Click]
                    &&& !before->Gesture_0.contains_key(GestureDirection::Click)
                        ==> after.bindings[button].click() == default_action(button)@
                    &&& after.disabled_gestures.contains_key(button)
                        && after.disabled_gestures[button] == before->Gesture_0
                }
                &&& swiped && before is Gesture ==> after.bindings[button] == before
                &&& !swiped && !(before is Gesture) ==> after.bindings[button] == before
                &&& swiped && !button.hidpp_gesture_source() ==> after.bindings[button] == before
            }
            &&& swiped && button.hidpp_gesture_source() ==> after.gesture_mode(button)
            &&& swiped && button.hidpp_gesture_source() && device.bindings.contains_key(button)
                && !(device.bindings[button] is Gesture) ==> after.bindings[button]
                == BindingModel::Gesture(default_directions())
            &&& !device.bindings.contains_key(button) && !(button is GestureButton) && !swiped
                ==> !after.bindings.contains_key(button)
            &&& button is GestureButton && !swiped && !device.bindings.contains_key(button)
                ==> after.bindings.contains_key(button) && after.bindings[button]
                == BindingModel::Single(default_action(button)@)
            &&& !(device.bindings.contains_key(button) && device.bindings[button] is Gesture
                && !swiped) ==> {
                &&& after.disabled_gestures.contains_key(button)
                    == device.disabled_gestures.contains_key(button)
                &&& device.disabled_gestures.contains_key(button)
                    ==> after.disabled_gestures[button] == device.disabled_gestures[button]
            }
            &&& (DeviceModel {
                bindings: device.bindings,
                disabled_gestures: device.disabled_gestures,
                gesture_owner: device.gesture_owner,
                ..after
            }) == device
        }),
{
}

/// The button that swiped is the one a file names, or none where it says so.
/// Where it says nothing, it is the first with directions, by the order of the
/// buttons and the gesture button last; the gesture button itself unless it was
/// bound to a press.
pub proof fn law_which_button_swiped(device: DeviceModel, button: ButtonId)
    ensures
        device.gesture_owner == Some(GestureOwner::Off) ==> device.owner() is None,
        device.gesture_owner == Some(GestureOwner::Button(button)) ==> device.owner() == Some(
            button,
        ),
        device.gesture_owner is None ==> {
            let directed = |b: ButtonId|
                device.bindings.contains_key(b) && device.bindings[b] is Gesture;
            &&& directed(button) && !(button is GestureButton) ==> {
                &&& device.owner() is Some
                &&& !(device.owner() == Some(ButtonId::GestureButton))
                &&& directed(device.owner().unwrap())
                &&& device.owner().unwrap().position() <= button.position()
            }
            &&& (forall|b: ButtonId|
                !(b is GestureButton) ==> !(#[trigger] device.bindings.contains_key(b)
                    && device.bindings[b] is Gesture)) ==> {
                &&& !device.bindings.contains_key(ButtonId::GestureButton) || directed(
                    ButtonId::GestureButton,
                ) ==> device.owner() == Some(ButtonId::GestureButton)
                &&& device.bindings.contains_key(ButtonId::GestureButton) && !directed(
                    ButtonId::GestureButton,
                ) ==> device.owner() is None
            }
        },
{
    if device.gesture_owner is None {
        if device.bindings.contains_key(button) && device.bindings[button] is Gesture
            && !(button is GestureButton) {
            lemma_someone_swipes_first(device.bindings, button, button.position());
            let found = choose|b: ButtonId| swipes_first(device.bindings, b);
            assert(swipes_first(device.bindings, found));
            assert(swipes(device.bindings, button));
        }
        if forall|b: ButtonId|
            !(b is GestureButton) ==> !(#[trigger] device.bindings.contains_key(b)
                && device.bindings[b] is Gesture) {
            if exists|b: ButtonId| swipes_first(device.bindings, b) {
                let found = choose|b: ButtonId| swipes_first(device.bindings, b);
                assert(device.bindings.contains_key(found));
            }
        }
    }
}

proof fn lemma_someone_swipes_first(
    bindings: Map<ButtonId, BindingModel>,
    button: ButtonId,
    rank: int,
)
    requires
        swipes(bindings, button),
        rank == button.position(),
    ensures
        exists|b: ButtonId| swipes_first(bindings, b),
    decreases rank,
{
    if !swipes_first(bindings, button) {
        let other = choose|other: ButtonId| #[trigger]
            swipes(bindings, other) && other.position() < button.position();
        ButtonId::position_injective(other, button);
        lemma_someone_swipes_first(bindings, other, other.position());
    }
}

/// What older files kept apart is taken where the current layout has nothing:
/// the directions of the gesture button, then the single actions. The gesture
/// button's single action is not taken.
pub proof fn law_older_bindings_fill_the_gaps(raw: RawDeviceConfig, button: ButtonId)
    ensures
        ({
            let stated = raw.stated_bindings();
            let now = raw.device@.bindings;
            let directions = raw.gesture_bindings@;
            let single = raw.button_bindings@;
            &&& now.contains_key(button) ==> stated.contains_key(button) && stated[button]
                == now[button]
            &&& !now.contains_key(button) && button is GestureButton ==> {
                &&& directions.dom().is_empty() ==> !stated.contains_key(button)
                &&& !directions.dom().is_empty() ==> stated.contains_key(button)
                    && stated[button] == BindingModel::Gesture(directions)
            }
            &&& !now.contains_key(button) && !(button is GestureButton) ==> {
                &&& stated.contains_key(button) <==> single.contains_key(button)
                &&& single.contains_key(button) ==> stated[button] == BindingModel::Single(
                    single[button],
                )
            }
        }),
{
    let directions = raw.gesture_bindings@;
    if directions.dom().is_empty() {
        assert(directions =~= Map::empty());
    }
    assert(Map::<GestureDirection, ActionModel>::empty().dom() =~= Set::empty());
}

/// A device that says what it is has its settings under that in the end, however
/// it is reached; one that does not has them under what stands for it on its
/// route, if anything does.
pub proof fn law_where_settings_belong(
    stable: StableModel,
    other: StableModel,
    identity: IdentityModel,
)
    ensures
        identity.physical() ==> canonical_key(stable, Some(identity)) == Some(identity.key()),
        identity.physical() ==> canonical_key(stable, Some(identity)) == canonical_key(
            other,
            Some(identity),
        ),
        !identity.physical() ==> canonical_key(stable, Some(identity)) == stable.physical_key(),
        canonical_key(stable, None) == stable.physical_key(),
{
}

proof fn lemma_past_a_separator(head: Seq<char>, separator: char, rest: Seq<char>, n: nat)
    requires
        !head.contains(separator),
    ensures
        after_nth(head.push(separator) + rest, separator, n + 1) == after_nth(rest, separator, n),
    decreases head.len(),
{
    let text = head.push(separator) + rest;
    if head.len() == 0 {
        assert(text.skip(1) =~= rest);
    } else {
        let fewer = head.skip(1);
        assert(head.contains(head[0]));
        assert(!fewer.contains(separator)) by {
            if fewer.contains(separator) {
                assert(head[fewer.index_of(separator) + 1] == separator);
            }
        }
        lemma_past_a_separator(fewer, separator, rest, n);
        assert(text.skip(1) =~= fewer.push(separator) + rest);
    }
}

/// A key is renamed where it is a direct route, of a vendor and a product, with
/// the key of a device behind it: to the key of that device, and the route is
/// kept. With anything else behind it, or with anything else in front, it stays.
pub proof fn law_what_is_renamed(vendor: Seq<char>, product: Seq<char>, identity: Seq<char>)
    requires
        !vendor.contains(':'),
        !product.contains(':'),
    ensures
        ({
            let route = "direct:"@ + vendor + ":"@ + product;
            let key = route + ":"@ + identity;
            &&& is_physical_key(identity) ==> rename_of(key) == Some(
                RenameModel { key: identity, route },
            )
            &&& is_physical_key(identity) ==> without_route(key) == identity
            &&& !is_physical_key(identity) ==> rename_of(key) is None && without_route(key) == key
        }),
        identity.len() < 7 || identity.take(7) != "direct:"@ ==> rename_of(identity) is None
            && without_route(identity) == identity,
{
    reveal_strlit("direct:");
    reveal_strlit(":");
    let route = "direct:"@ + vendor + ":"@ + product;
    let key = route + ":"@ + identity;
    let rest = vendor.push(':') + (product.push(':') + identity);
    assert(key.skip(7) =~= rest);
    assert(key.take(7) =~= "direct:"@);
    assert("direct:"@.is_prefix_of(key)) by {
        assert(key.subrange(0, 7) =~= "direct:"@);
    }
    assert(after_nth(identity, ':', 0) == Some(identity));
    lemma_past_a_separator(product, ':', identity, 0);
    lemma_past_a_separator(vendor, ':', product.push(':') + identity, 1);
    assert(key.take(key.len() - identity.len() - 1) =~= route);
    if "direct:"@.is_prefix_of(identity) {
        assert(identity.take(7) =~= "direct:"@);
    }
}

}
