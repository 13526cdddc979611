//! Bringing configurations of older layouts up to date.

use vstd::prelude::*;
use vstd::string::StrSliceExecFns;

use crate::binding::action::ActionModel;
use crate::binding::button::{ButtonId, GestureDirection};
use crate::binding::shape::{
    default_action, default_binding, default_binding_for, default_direction_map,
    default_directions, default_shape, Binding, BindingModel,
};
use crate::config::device::{DeviceConfig, DeviceModel, LinkConfig};
use crate::config::identity::fold;
use crate::config::settings::GestureOwner;
use crate::config::{Config, ConfigModel, SCHEMA_VERSION};
use crate::device_order::{is_physical_key, PhysicalDeviceKey};
use crate::ordered::{
    each, each_changed, is_key_order, key_order, lemma_all_changed, lemma_key_order_is_unique,
    lemma_none_changed, lemma_one_more_changed, lemma_taken_one_more, opt, some_changed,
    OrderedMap, Replicate,
};
use crate::text::{after_nth, after_prefix, lemma_after_nth_is_tail, strip_prefix, strip_to_nth};

verus! {

/// The last layout in which one button per device swiped.
pub const LAST_OWNER_LOCKED: u32 = 3;

/// The last layout in which a key could name a direct route.
pub const LAST_TRANSPORT_SCOPED: u32 = 4;

/// What a key that names a device behind a direct route becomes.
pub struct Rename {
    /// The key that names the device alone.
    pub key: String,
    /// The route it was behind.
    pub route: String,
}

/// The model of a [`Rename`].
pub ghost struct RenameModel {
    pub key: Seq<char>,
    pub route: Seq<char>,
}

impl View for Rename {
    type V = RenameModel;

    open spec fn view(&self) -> RenameModel {
        RenameModel { key: self.key@, route: self.route@ }
    }
}

/// What `key` becomes, where it is a direct route and then the key of a device.
pub open spec fn rename_of(key: Seq<char>) -> Option<RenameModel> {
    match after_prefix(key, "direct:"@) {
        Some(rest) => match after_nth(rest, ':', 2) {
            Some(identity) => if is_physical_key(identity) {
                Some(
                    RenameModel {
                        key: identity,
                        route: key.take(key.len() - identity.len() - 1),
                    },
                )
            } else {
                None
            },
            None => None,
        },
        None => None,
    }
}

/// The key with its direct route taken off, where it has one.
pub open spec fn without_route(key: Seq<char>) -> Seq<char> {
    match rename_of(key) {
        Some(rename) => rename.key,
        None => key,
    }
}

/// The devices once the one under `from` is moved to the key that names it
/// alone, and merged with what is there.
pub open spec fn one_moved(devices: Map<Seq<char>, DeviceModel>, from: Seq<char>) -> Map<
    Seq<char>,
    DeviceModel,
> {
    if devices.contains_key(from) {
        let rename = rename_of(from).unwrap();
        let device = devices[from].met_on(rename.route, None);
        let rest = devices.remove(from);
        if rest.contains_key(rename.key) {
            rest.insert(rename.key, rest[rename.key].folded(device, rename.route))
        } else {
            rest.insert(rename.key, device)
        }
    } else {
        devices
    }
}

/// The devices once those under `names` are moved, one after the other.
pub open spec fn all_moved(devices: Map<Seq<char>, DeviceModel>, names: Seq<Seq<char>>) -> Map<
    Seq<char>,
    DeviceModel,
>
    decreases names.len(),
{
    if names.len() == 0 {
        devices
    } else {
        one_moved(all_moved(devices, names.drop_last()), names.last())
    }
}

/// Where the entry under `key` is once those under `names` were moved, one after
/// the other. An entry moves on where the key it came to is moved later.
pub open spec fn destination(key: Seq<char>, names: Seq<Seq<char>>) -> Seq<char>
    decreases names.len(),
{
    if names.len() == 0 {
        key
    } else {
        let at = destination(key, names.drop_last());
        if at == names.last() {
            without_route(at)
        } else {
            at
        }
    }
}

/// Whether the entry under `key` was moved off `route` on its way there.
pub open spec fn left_route(
    key: Seq<char>,
    names: Seq<Seq<char>>,
    route: Seq<char>,
) -> bool
    decreases names.len(),
{
    names.len() > 0 && {
        ||| left_route(key, names.drop_last(), route)
        ||| destination(key, names.drop_last()) == names.last() && (rename_of(
            names.last(),
        ) matches Some(rename) && rename.route == route)
    }
}

/// Whether a device is kept under `key` and ends up under `end`.
pub open spec fn ends_at(
    devices: Map<Seq<char>, DeviceModel>,
    names: Seq<Seq<char>>,
    key: Seq<char>,
    end: Seq<char>,
) -> bool {
    devices.contains_key(key) && destination(key, names) == end
}

/// Whether a device that ends up under `end` was met on `route`, or moved off it.
pub open spec fn brings(
    devices: Map<Seq<char>, DeviceModel>,
    names: Seq<Seq<char>>,
    key: Seq<char>,
    end: Seq<char>,
    route: Seq<char>,
) -> bool {
    ends_at(devices, names, key, end) && (devices[key].links.contains_key(route) || left_route(
        key,
        names,
        route,
    ))
}

/// A device with the direct routes taken off its host switch targets.
pub open spec fn targets_without_routes() -> spec_fn(Seq<char>, DeviceModel) -> DeviceModel {
    |key: Seq<char>, device: DeviceModel|
        DeviceModel {
            host_switch_targets: device.host_switch_targets.map_values(
                |target: Seq<char>| without_route(target),
            ),
            ..device
        }
}

impl ConfigModel {
    /// Whether `key` names a device anywhere: settings are kept under it, it is
    /// the one shown, or another device switches it along.
    pub open spec fn mentions(self, key: Seq<char>) -> bool {
        ||| self.devices.contains_key(key)
        ||| self.selected_device == Some(key)
        ||| exists|other: Seq<char>| #[trigger]
            self.devices.contains_key(other) && self.devices[other].host_switch_targets.contains(
                key,
            )
    }

    /// What each key with a direct route becomes.
    pub open spec fn renames(self) -> Map<Seq<char>, RenameModel> {
        Map::new(
            |key: Seq<char>| self.mentions(key) && rename_of(key) is Some,
            |key: Seq<char>| rename_of(key).unwrap(),
        )
    }

    /// The configuration with direct routes taken off every key. Devices move in
    /// the order of their keys.
    pub open spec fn without_routes(self) -> ConfigModel {
        let moved = all_moved(self.devices, key_order::<String, RenameModel>(self.renames()));
        ConfigModel {
            selected_device: match self.selected_device {
                Some(key) => Some(without_route(key)),
                None => None,
            },
            devices: each_changed(moved, targets_without_routes()),
            ..self
        }
    }

    /// The configuration with one swiping button per device no longer a rule.
    pub open spec fn unlocked(self) -> ConfigModel {
        ConfigModel { devices: each_changed(self.devices, each_unlocked()), ..self }
    }
}

/// Whether every entry is what its key becomes.
spec fn are_renames(map: Map<Seq<char>, RenameModel>) -> bool {
    forall|key: Seq<char>| #[trigger] map.contains_key(key) ==> rename_of(key) == Some(map[key])
}

fn parse_rename(key: &str) -> (rename: Option<Rename>)
    ensures
        opt(rename) == rename_of(key@),
{
    let rest = match strip_prefix(key, "direct:") {
        Some(rest) => rest,
        None => {
            return None;
        },
    };
    let identity = match strip_to_nth(rest, ':', 2) {
        Some(identity) => identity,
        None => {
            return None;
        },
    };
    if PhysicalDeviceKey::parse(identity).is_none() {
        return None;
    }
    proof {
        lemma_after_nth_is_tail(rest@, ':', 2);
    }
    let n: usize = key.unicode_len() - identity.unicode_len() - 1;
    assert(key@.subrange(0, n as int) =~= key@.take(n as int));
    Some(Rename { key: identity.to_owned(), route: key.substring_char(0, n).to_owned() })
}

fn note(renames: &mut OrderedMap<String, Rename>, key: &str)
    requires
        are_renames(old(renames)@),
    ensures
        are_renames(final(renames)@),
        forall|k: Seq<char>| #[trigger]
            final(renames)@.contains_key(k) <==> old(renames)@.contains_key(k) || (k == key@
                && rename_of(k) is Some),
{
    if let Some(rename) = parse_rename(key) {
        let _ = renames.insert(key.to_owned(), rename);
    }
}

fn note_targets(renames: &mut OrderedMap<String, Rename>, device: &DeviceConfig)
    requires
        are_renames(old(renames)@),
    ensures
        are_renames(final(renames)@),
        forall|k: Seq<char>| #[trigger]
            final(renames)@.contains_key(k) <==> old(renames)@.contains_key(k) || (
            device@.host_switch_targets.contains(k) && rename_of(k) is Some),
{
    let ghost targets = device@.host_switch_targets;
    let n: usize = device.host_switch_targets.len();
    let mut i: usize = 0;
    while i < n
        invariant
            n == targets.len(),
            n == device.host_switch_targets@.len(),
            targets == device@.host_switch_targets,
            i <= n,
            are_renames(renames@),
            forall|k: Seq<char>| #[trigger]
                renames@.contains_key(k) <==> old(renames)@.contains_key(k) || (targets.take(
                    i as int,
                ).contains(k) && rename_of(k) is Some),
        decreases n - i,
    {
        let ghost before = renames@;
        note(renames, device.host_switch_targets[i].as_str());
        proof {
            assert forall|k: Seq<char>| #[trigger]
                renames@.contains_key(k) <==> old(renames)@.contains_key(k) || (targets.take(
                    i + 1,
                ).contains(k) && rename_of(k) is Some) by {
                lemma_taken_one_more(targets, i as int, k);
                assert(before.contains_key(k) <==> old(renames)@.contains_key(k) || (targets.take(
                    i as int,
                ).contains(k) && rename_of(k) is Some));
            }
        }
        i += 1;
    }
    assert(targets.take(n as int) =~= targets);
}

/// A layout that is not known: none, or one of a later version.
#[derive(Clone, Copy, Debug, PartialEq, Eq, Structural)]
pub struct UnsupportedSchemaVersion {
    pub found: u32,
}

impl ConfigModel {
    /// Whether the layout is known.
    pub open spec fn supported(self) -> bool {
        1 <= self.schema_version <= SCHEMA_VERSION
    }

    /// Brought up to date, one change of layout after another.
    pub open spec fn upgraded(self) -> ConfigModel {
        let shaped = if self.schema_version <= LAST_OWNER_LOCKED {
            self.unlocked()
        } else {
            self
        };
        let keyed = if self.schema_version <= LAST_TRANSPORT_SCOPED {
            shaped.without_routes()
        } else {
            shaped
        };
        ConfigModel { schema_version: SCHEMA_VERSION, ..keyed }
    }
}

impl Config {
    /// Whether a file of the current layout names a swiping button per device,
    /// which that layout no longer has.
    pub fn holds_obsolete_fields(&self) -> (yes: bool)
        ensures
            yes == (self@.schema_version == SCHEMA_VERSION && exists|key: Seq<char>|
                #[trigger] self@.devices.contains_key(key)
                    && self@.devices[key].gesture_owner is Some),
    {
        if self.schema_version != SCHEMA_VERSION {
            return false;
        }
        let ghost order = self.devices.order();
        let n: usize = self.devices.len();
        let mut i: usize = 0;
        while i < n
            invariant
                self.schema_version == SCHEMA_VERSION,
                n == order.len(),
                order == self.devices.order(),
                is_key_order::<String, DeviceModel>(order, self@.devices),
                i <= n,
                forall|j: int|
                    0 <= j < i ==> self@.devices[#[trigger] order[j]].gesture_owner is None,
            decreases n - i,
        {
            let device = self.devices.value_at(i);
            if device.gesture_owner.is_some() {
                assert(self@.devices.contains_key(order[i as int]));
                return true;
            }
            i += 1;
        }
        assert forall|key: Seq<char>| #[trigger]
            self@.devices.contains_key(key) implies self@.devices[key].gesture_owner is None by {
            assert(order.contains(key));
            assert(order[order.index_of(key)] == key);
        }
        false
    }

    /// Bring a configuration that was read from a file up to date. A layout that
    /// is not known is refused, and nothing is changed.
    pub fn upgrade(&mut self) -> (result: Result<(), UnsupportedSchemaVersion>)
        ensures
            match result {
                Ok(_) => old(self)@.supported() && final(self)@ == old(self)@.upgraded(),
                Err(error) => {
                    &&& !old(self)@.supported()
                    &&& error.found == old(self).schema_version
                    &&& final(self)@ == old(self)@
                },
            },
    {
        let found: u32 = self.schema_version;
        if found < 1 || found > SCHEMA_VERSION {
            return Err(UnsupportedSchemaVersion { found });
        }
        if found <= LAST_OWNER_LOCKED {
            self.migrate_owner_locked_gestures();
        }
        if found <= LAST_TRANSPORT_SCOPED {
            self.migrate_transport_scoped_keys();
        }
        self.schema_version = SCHEMA_VERSION;
        Ok(())
    }
}

impl Config {
    fn renames(&self) -> (renames: OrderedMap<String, Rename>)
        ensures
            renames@ == self@.renames(),
    {
        let mut renames: OrderedMap<String, Rename> = OrderedMap::new();
        if let Some(key) = &self.selected_device {
            note(&mut renames, key.as_str());
        }
        let ghost order = self.devices.order();
        let ghost devices = self@.devices;
        let n: usize = self.devices.len();
        let mut i: usize = 0;
        while i < n
            invariant
                n == order.len(),
                order == self.devices.order(),
                devices == self@.devices,
                is_key_order::<String, DeviceModel>(order, devices),
                i <= n,
                are_renames(renames@),
                forall|k: Seq<char>| #[trigger]
                    renames@.contains_key(k) <==> rename_of(k) is Some && (self@.selected_device
                        == Some(k) || order.take(i as int).contains(k) || exists|j: int|
                        0 <= j < i && devices[#[trigger] order[j]].host_switch_targets.contains(
                            k,
                        )),
            decreases n - i,
        {
            let ghost before = renames@;
            note(&mut renames, self.devices.key_at(i).as_str());
            let ghost middle = renames@;
            note_targets(&mut renames, self.devices.value_at(i));
            proof {
                assert forall|k: Seq<char>| #[trigger]
                    renames@.contains_key(k) <==> rename_of(k) is Some && (self@.selected_device
                        == Some(k) || order.take(i + 1).contains(k) || exists|j: int|
                        0 <= j < i + 1 && devices[#[trigger] order[j]].host_switch_targets.contains(
                            k,
                        )) by {
                    lemma_taken_one_more(order, i as int, k);
                    assert(before.contains_key(k) <==> rename_of(k) is Some && (
                    self@.selected_device == Some(k) || order.take(i as int).contains(k)
                        || exists|j: int|
                        0 <= j < i && devices[#[trigger] order[j]].host_switch_targets.contains(
                            k,
                        )));
                    assert(middle.contains_key(k) <==> before.contains_key(k) || (k
                        == order[i as int] && rename_of(k) is Some));
                    assert(devices[order[i as int]] == self.devices@[order[i as int]]);
                }
            }
            i += 1;
        }
        proof {
            assert(order.take(n as int) =~= order);
            assert forall|k: Seq<char>| renames@.contains_key(k) <==> #[trigger]
                self@.renames().contains_key(k) by {
                assert(order.contains(k) <==> devices.contains_key(k)) by {
                    if order.contains(k) {
                        assert(order[order.index_of(k)] == k);
                    }
                }
                if exists|other: Seq<char>| #[trigger]
                    devices.contains_key(other) && devices[other].host_switch_targets.contains(k) {
                    let other = choose|other: Seq<char>| #[trigger]
                        devices.contains_key(other) && devices[other].host_switch_targets.contains(
                            k,
                        );
                    assert(order.contains(other));
                    assert(order[order.index_of(other)] == other);
                }
                assert(renames@.contains_key(k) <==> rename_of(k) is Some && (
                self@.selected_device == Some(k) || order.take(n as int).contains(k) || exists|
                    j: int,
                |
                    0 <= j < n && devices[#[trigger] order[j]].host_switch_targets.contains(k)));
            }
            assert(renames@ =~= self@.renames());
        }
        renames
    }

    fn move_device(&mut self, from: &str, rename: &Rename)
        requires
            rename_of(from@) == Some(rename@),
        ensures
            final(self)@ == (ConfigModel {
                devices: one_moved(old(self)@.devices, from@),
                ..old(self)@
            }),
    {
        let mut device = match self.devices.remove(from) {
            Some(device) => device,
            None => {
                assert(self@.devices =~= old(self)@.devices);
                return;
            },
        };
        let ghost before = device@;
        let route = rename.route.as_str();
        let _ = device.links.get_or_insert(route.to_owned(), LinkConfig::default());
        assert(device@ =~= before.met_on(route@, None));
        match self.devices.get_mut(rename.key.as_str()) {
            Some(existing) => {
                fold(existing, device, route);
                return;
            },
            None => {},
        }
        let _ = self.devices.insert(rename.key.replicate(), device);
    }

    /// Take the direct route off every key that has one.
    ///
    /// A key that says how a device is connected loses its settings when the
    /// device is connected otherwise. The route is kept in the device's routes.
    /// The device shown and the devices switched along follow.
    pub fn migrate_transport_scoped_keys(&mut self)
        ensures
            final(self)@ == old(self)@.without_routes(),
    {
        let renames = self.renames();
        let ghost start = self@;
        let ghost names = renames.order();
        let n: usize = renames.len();
        let mut i: usize = 0;
        while i < n
            invariant
                n == names.len(),
                names == renames.order(),
                is_key_order::<String, RenameModel>(names, renames@),
                renames@ == start.renames(),
                i <= n,
                self@ == (ConfigModel {
                    devices: all_moved(start.devices, names.take(i as int)),
                    ..start
                }),
            decreases n - i,
        {
            self.move_device(renames.key_at(i).as_str(), renames.value_at(i));
            proof {
                assert(names.take(i + 1).drop_last() =~= names.take(i as int));
                assert(names.take(i + 1).last() == names[i as int]);
            }
            i += 1;
        }
        proof {
            assert(names.take(n as int) =~= names);
            let listed = key_order::<String, RenameModel>(start.renames());
            assert(is_key_order::<String, RenameModel>(listed, start.renames()));
            lemma_key_order_is_unique::<String, RenameModel>(names, listed, start.renames());
        }
        let selected = match &self.selected_device {
            Some(key) => parse_rename(key.as_str()),
            None => None,
        };
        if let Some(rename) = selected {
            self.selected_device = Some(rename.key);
        }
        let ghost middle = self@;
        let ghost f = targets_without_routes();
        let ghost order = self.devices.order();
        let n: usize = self.devices.len();
        let mut i: usize = 0;
        proof {
            lemma_none_changed(middle.devices, order, f);
        }
        while i < n
            invariant
                n == order.len(),
                order == self.devices.order(),
                is_key_order::<String, DeviceModel>(order, middle.devices),
                f == targets_without_routes(),
                i <= n,
                self@ == (ConfigModel {
                    devices: some_changed(middle.devices, order, f, i as int),
                    ..middle
                }),
            decreases n - i,
        {
            proof {
                lemma_one_more_changed::<String, DeviceModel>(middle.devices, order, f, i as int);
            }
            let device = self.devices.value_at_mut(i);
            device.take_routes_off_targets();
            i += 1;
        }
        proof {
            lemma_all_changed::<String, DeviceModel>(middle.devices, order, f);
        }
    }

    /// Give up the rule that one button per device swipes.
    ///
    /// Files up to the third layout kept direction maps for buttons that did not
    /// swipe. A stored map means swiping now, so such maps are stashed.
    pub fn migrate_owner_locked_gestures(&mut self)
        ensures
            final(self)@ == old(self)@.unlocked(),
    {
        let ghost start = self@;
        let ghost f = each_unlocked();
        let ghost order = self.devices.order();
        let n: usize = self.devices.len();
        let mut i: usize = 0;
        proof {
            lemma_none_changed(start.devices, order, f);
        }
        while i < n
            invariant
                n == order.len(),
                order == self.devices.order(),
                is_key_order::<String, DeviceModel>(order, start.devices),
                f == each_unlocked(),
                i <= n,
                self@ == (ConfigModel {
                    devices: some_changed(start.devices, order, f, i as int),
                    ..start
                }),
            decreases n - i,
        {
            proof {
                lemma_one_more_changed::<String, DeviceModel>(start.devices, order, f, i as int);
            }
            let device = self.devices.value_at_mut(i);
            device.unlock_gestures();
            i += 1;
        }
        proof {
            lemma_all_changed::<String, DeviceModel>(start.devices, order, f);
        }
    }
}

/// Every device with one swiping button no longer a rule.
pub open spec fn each_unlocked() -> spec_fn(Seq<char>, DeviceModel) -> DeviceModel {
    |key: Seq<char>, device: DeviceModel| device.unlocked()
}

/// Whether a button other than the gesture button has a direction map.
pub open spec fn swipes(bindings: Map<ButtonId, BindingModel>, button: ButtonId) -> bool {
    button != ButtonId::GestureButton && bindings.contains_key(button)
        && bindings[button] is Gesture
}

/// Whether a button is the first that has a direction map.
pub open spec fn swipes_first(bindings: Map<ButtonId, BindingModel>, button: ButtonId) -> bool {
    &&& swipes(bindings, button)
    &&& forall|other: ButtonId| #[trigger]
        swipes(bindings, other) ==> button.position() <= other.position()
}

/// The button that swiped where none was named: the first with a direction map,
/// else the gesture button unless it was bound otherwise.
pub open spec fn inferred_owner(bindings: Map<ButtonId, BindingModel>) -> Option<ButtonId> {
    if exists|button: ButtonId| swipes_first(bindings, button) {
        Some(choose|button: ButtonId| swipes_first(bindings, button))
    } else if bindings.contains_key(ButtonId::GestureButton)
        && !(bindings[ButtonId::GestureButton] is Gesture) {
        None
    } else {
        Some(ButtonId::GestureButton)
    }
}

/// Whether a button has a direction map without being the one that swiped.
pub open spec fn dormant(
    bindings: Map<ButtonId, BindingModel>,
    owner: Option<ButtonId>,
    button: ButtonId,
) -> bool {
    bindings.contains_key(button) && owner != Some(button) && bindings[button] is Gesture
}

/// A binding with its direction map turned into its click, unless the button is
/// the one that swiped.
pub open spec fn dormant_demoted(owner: Option<ButtonId>) -> spec_fn(
    ButtonId,
    BindingModel,
) -> BindingModel {
    |button: ButtonId, binding: BindingModel|
        if owner == Some(button) {
            binding
        } else {
            binding.demoted(default_action(button)@)
        }
}

impl DeviceModel {
    /// The button that swiped.
    pub open spec fn owner(self) -> Option<ButtonId> {
        match self.gesture_owner {
            Some(GestureOwner::Off) => None,
            Some(GestureOwner::Button(button)) => Some(button),
            None => inferred_owner(self.bindings),
        }
    }

    /// The direction maps of the buttons among `buttons` that did not swipe.
    pub open spec fn dormant_among(self, owner: Option<ButtonId>, buttons: Seq<ButtonId>) -> Map<
        ButtonId,
        Map<GestureDirection, ActionModel>,
    > {
        Map::new(
            |button: ButtonId| buttons.contains(button) && dormant(self.bindings, owner, button),
            |button: ButtonId| self.bindings[button]->Gesture_0,
        )
    }

    /// The direction maps of all buttons that did not swipe.
    pub open spec fn dormant_maps(self) -> Map<ButtonId, Map<GestureDirection, ActionModel>> {
        Map::new(
            |button: ButtonId| dormant(self.bindings, self.owner(), button),
            |button: ButtonId| self.bindings[button]->Gesture_0,
        )
    }

    /// The bindings with every map that did not swipe turned into its click, and
    /// with the map that did swipe written down.
    pub open spec fn owner_written_down(self) -> Map<ButtonId, BindingModel> {
        let demoted = each_changed(self.bindings, dormant_demoted(self.owner()));
        let seeded = BindingModel::Gesture(default_directions());
        match self.owner() {
            Some(owner) => if !owner.hidpp_gesture_source() {
                demoted
            } else if demoted.contains_key(owner) {
                if demoted[owner] is Gesture {
                    demoted
                } else {
                    demoted.insert(owner, seeded)
                }
            } else if default_shape(owner) is Gesture {
                demoted
            } else {
                demoted.insert(owner, seeded)
            },
            None => demoted,
        }
    }

    /// The device with one swiping button no longer a rule.
    pub open spec fn unlocked(self) -> DeviceModel {
        let written = self.owner_written_down();
        DeviceModel {
            gesture_owner: None,
            bindings: if self.owner() != Some(ButtonId::GestureButton) && !written.contains_key(
                ButtonId::GestureButton,
            ) {
                written.insert(
                    ButtonId::GestureButton,
                    BindingModel::Single(default_action(ButtonId::GestureButton)@),
                )
            } else {
                written
            },
            disabled_gestures: self.disabled_gestures.union_prefer_right(self.dormant_maps()),
            ..self
        }
    }
}

fn infer_gesture_owner(bindings: &OrderedMap<ButtonId, Binding>) -> (owner: Option<ButtonId>)
    ensures
        owner == inferred_owner(bindings@),
{
    let ghost order = bindings.order();
    let n: usize = bindings.len();
    let mut i: usize = 0;
    while i < n
        invariant
            n == order.len(),
            order == bindings.order(),
            is_key_order::<ButtonId, BindingModel>(order, bindings@),
            i <= n,
            forall|j: int| 0 <= j < i ==> !swipes(bindings@, #[trigger] order[j]),
        decreases n - i,
    {
        let button: ButtonId = *bindings.key_at(i);
        if button != ButtonId::GestureButton && bindings.value_at(i).is_gesture() {
            proof {
                assert forall|other: ButtonId| #[trigger]
                    swipes(bindings@, other) implies button.position() <= other.position() by {
                    assert(order.contains(other));
                    assert(order[order.index_of(other)] == other);
                }
                assert(swipes_first(bindings@, button));
                let found = choose|b: ButtonId| swipes_first(bindings@, b);
                assert(swipes_first(bindings@, found));
                assert(swipes(bindings@, found));
                ButtonId::position_injective(found, button);
            }
            return Some(button);
        }
        i += 1;
    }
    proof {
        assert forall|b: ButtonId| !swipes(bindings@, b) by {
            if swipes(bindings@, b) {
                assert(order.contains(b));
                assert(order[order.index_of(b)] == b);
            }
        }
    }
    match bindings.get(&ButtonId::GestureButton) {
        Some(binding) => if binding.is_gesture() {
            Some(ButtonId::GestureButton)
        } else {
            None
        },
        None => Some(ButtonId::GestureButton),
    }
}

impl DeviceConfig {
    fn take_routes_off_targets(&mut self)
        ensures
            final(self)@ == targets_without_routes()(Seq::empty(), old(self)@),
    {
        let ghost before = self@.host_switch_targets;
        let n: usize = self.host_switch_targets.len();
        let mut i: usize = 0;
        while i < n
            invariant
                i <= n,
                n == self.host_switch_targets@.len(),
                n == before.len(),
                before == old(self)@.host_switch_targets,
                forall|j: int|
                    0 <= j < i ==> (#[trigger] self.host_switch_targets@[j])@ == without_route(
                        before[j],
                    ),
                forall|j: int|
                    i <= j < n ==> (#[trigger] self.host_switch_targets@[j])@ == before[j],
                self@ == (DeviceModel {
                    host_switch_targets: self@.host_switch_targets,
                    ..old(self)@
                }),
            decreases n - i,
        {
            if let Some(rename) = parse_rename(self.host_switch_targets[i].as_str()) {
                self.host_switch_targets[i] = rename.key;
            }
            i += 1;
        }
        assert(self@.host_switch_targets =~= before.map_values(
            |target: Seq<char>| without_route(target),
        ));
    }

    fn unlock_gestures(&mut self)
        ensures
            final(self)@ == old(self)@.unlocked(),
    {
        let ghost start = self@;
        let owner: Option<ButtonId> = match self.gesture_owner {
            Some(GestureOwner::Off) => None,
            Some(GestureOwner::Button(button)) => Some(button),
            None => infer_gesture_owner(&self.bindings),
        };
        self.gesture_owner = None;
        let ghost f = dormant_demoted(owner);
        let ghost order = self.bindings.order();
        let n: usize = self.bindings.len();
        let mut i: usize = 0;
        proof {
            lemma_none_changed(start.bindings, order, f);
            assert(start.disabled_gestures.union_prefer_right(
                start.dormant_among(owner, order.take(0)),
            ) =~= start.disabled_gestures);
        }
        while i < n
            invariant
                n == order.len(),
                order == self.bindings.order(),
                is_key_order::<ButtonId, BindingModel>(order, start.bindings),
                f == dormant_demoted(owner),
                i <= n,
                self@ == (DeviceModel {
                    gesture_owner: None,
                    bindings: some_changed(start.bindings, order, f, i as int),
                    disabled_gestures: start.disabled_gestures.union_prefer_right(
                        start.dormant_among(owner, order.take(i as int)),
                    ),
                    ..start
                }),
            decreases n - i,
        {
            proof {
                lemma_one_more_changed::<ButtonId, BindingModel>(
                    start.bindings,
                    order,
                    f,
                    i as int,
                );
                assert forall|b: ButtonId| order.take(i + 1).contains(b) <==> order.take(
                    i as int,
                ).contains(b) || b == order[i as int] by {
                    lemma_taken_one_more(order, i as int, b);
                }
            }
            let button: ButtonId = *self.bindings.key_at(i);
            let ghost stash = self@.disabled_gestures;
            let ghost now = self@.bindings;
            if owner != Some(button) {
                let map = match self.bindings.value_at(i) {
                    Binding::Gesture(map) => Some(map.replicate()),
                    _ => None,
                };
                if let Some(map) = map {
                    let _ = self.disabled_gestures.insert(button, map);
                }
                let binding = self.bindings.value_at_mut(i);
                binding.demote_to_single(default_binding(button));
            } else {
                assert(now =~= now.insert(button, start.bindings[button]));
            }
            proof {
                assert(self@.disabled_gestures =~= start.disabled_gestures.union_prefer_right(
                    start.dormant_among(owner, order.take(i + 1)),
                ));
            }
            i += 1;
        }
        proof {
            lemma_all_changed::<ButtonId, BindingModel>(start.bindings, order, f);
            assert(order.take(n as int) =~= order);
            assert(start.dormant_among(owner, order) =~= start.dormant_maps()) by {
                assert forall|b: ButtonId| start.bindings.contains_key(b) implies #[trigger]
                    order.contains(b) by {}
            }
        }
        if let Some(owner) = owner {
            if owner.is_hidpp_gesture_source() {
                let missing: bool = match self.bindings.get(&owner) {
                    Some(binding) => !binding.is_gesture(),
                    None => !default_binding_for(owner).is_gesture(),
                };
                if missing {
                    let _ = self.bindings.insert(owner, Binding::Gesture(default_direction_map()));
                }
            }
        }
        assert(self@.bindings == start.owner_written_down());
        if owner != Some(ButtonId::GestureButton) {
            let _ = self.bindings.get_or_insert(
                ButtonId::GestureButton,
                Binding::Single(default_binding(ButtonId::GestureButton)),
            );
        }
        assert(self@ =~= start.unlocked());
    }
}

}
