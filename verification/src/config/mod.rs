//! User configuration.
//!
//! What belongs to a device is kept under a key that names the device. The
//! settings below are the whole of what a configuration file holds.

pub mod device;
pub mod identity;
pub mod key_trigger;
pub mod laws;
pub mod migrate;
pub mod settings;

use vstd::prelude::*;
use vstd::string::StrSliceExecFns;

use crate::binding::action::{Action, ActionModel};
use crate::binding::button::{ButtonId, GestureDirection};
use crate::binding::ring::{
    ActionRingConfig, ActionRingIcon, ActionRingSlot, RingAction, RingModel,
};
use crate::binding::shape::{
    default_action, default_binding, default_binding_for, default_direction_map,
    default_directions, default_shape, Binding, BindingModel, DirectionMap,
};
use crate::config::device::{
    as_single_bindings, single_bindings, DeviceConfig, DeviceIdentity, DeviceIdentityModel,
    DeviceModel, TouchpadGestureSettings,
};
use crate::config::key_trigger::{KeyTrigger, KeyboardConfig};
use crate::config::settings::{
    AppModel, AppSettings, CameraControls, LightSettings, Lighting, ThumbwheelSensitivity,
};
use crate::hid::{Dpi, ScrollResolution, SmartShift};
use crate::ordered::{
    copied, each, is_key_order, lemma_taken_one_more, opt, replicate_opt, OrderedMap, Replicate,
};
use crate::text::{joined, same_text, small_letters, to_small_letters};

verus! {

/// The layout that a configuration is written in.
pub const SCHEMA_VERSION: u32 = 7;

/// The trigger is not a touchpad trigger.
#[derive(Clone, Copy, Debug, PartialEq, Eq, Structural)]
pub struct TouchpadTriggerError(pub ButtonId);

/// A user's configuration.
#[derive(Debug, PartialEq, Eq)]
pub struct Config {
    /// The layout that the configuration was read in.
    pub schema_version: u32,
    /// What belongs to no device.
    pub app_settings: AppSettings,
    /// The key of the device shown.
    pub selected_device: Option<String>,
    /// Whether the configuration is never written out.
    pub ephemeral: bool,
    /// What belongs to each device, by its key.
    pub devices: OrderedMap<String, DeviceConfig>,
    /// What keyboards do.
    pub keyboard: KeyboardConfig,
}

/// The model of a [`Config`].
#[verifier::ext_equal]
pub ghost struct ConfigModel {
    pub schema_version: u32,
    pub app_settings: AppModel,
    pub selected_device: Option<Seq<char>>,
    pub ephemeral: bool,
    pub devices: Map<Seq<char>, DeviceModel>,
    pub keyboard: Map<KeyTrigger, ActionModel>,
}

impl View for Config {
    type V = ConfigModel;

    open spec fn view(&self) -> ConfigModel {
        ConfigModel {
            schema_version: self.schema_version,
            app_settings: self.app_settings@,
            selected_device: opt(self.selected_device),
            ephemeral: self.ephemeral,
            devices: self.devices@,
            keyboard: self.keyboard.bindings@,
        }
    }
}

impl Replicate for Config {
    fn replicate(&self) -> (copy: Self) {
        Config {
            schema_version: self.schema_version,
            app_settings: self.app_settings.replicate(),
            selected_device: replicate_opt(&self.selected_device),
            ephemeral: self.ephemeral,
            devices: self.devices.replicate(),
            keyboard: KeyboardConfig { bindings: self.keyboard.bindings.replicate() },
        }
    }
}

impl Clone for Config {
    fn clone(&self) -> (copy: Self)
        ensures
            copy@ == self@,
    {
        self.replicate()
    }
}

impl TouchpadTriggerError {
    /// What went wrong, in words.
    pub fn message(&self) -> (text: String)
        ensures
            text@ == self.0.label_text() + " is not a touchpad gesture trigger"@,
    {
        joined(self.0.label(), " is not a touchpad gesture trigger")
    }
}

impl ConfigModel {
    /// A configuration nothing was ever set in.
    pub open spec fn unset() -> ConfigModel {
        ConfigModel {
            schema_version: SCHEMA_VERSION,
            app_settings: AppModel::unset(),
            selected_device: None,
            ephemeral: false,
            devices: Map::empty(),
            keyboard: Map::empty(),
        }
    }

    /// The settings of a device; those of a fresh one where nothing is stored.
    pub open spec fn device(self, key: Seq<char>) -> DeviceModel {
        if self.devices.contains_key(key) {
            self.devices[key]
        } else {
            DeviceModel::fresh()
        }
    }

    /// The configuration with a device's settings replaced.
    pub open spec fn with_device(self, key: Seq<char>, device: DeviceModel) -> ConfigModel {
        ConfigModel { devices: self.devices.insert(key, device), ..self }
    }

    /// Whether touchpad triggers carry single actions only, on every device.
    pub open spec fn touchpad_triggers_are_single(self) -> bool {
        forall|key: Seq<char>| #[trigger]
            self.devices.contains_key(key) ==> self.devices[key].touchpad_triggers_are_single()
    }
}

/// What follows the last path separator.
pub open spec fn file_name(path: Seq<char>) -> Seq<char>
    decreases path.len(),
{
    if path.len() == 0 || path.last() == '\\' || path.last() == '/' {
        Seq::empty()
    } else {
        file_name(path.drop_last()).push(path.last())
    }
}

/// Whether `name` is something and then `.exe`, in capitals or not.
pub open spec fn is_executable(name: Seq<char>) -> bool {
    name.len() > 4 && small_letters(name.skip(name.len() - 4)) == ".exe"@
}

/// The key under which a profile for the application in front is found: the
/// application itself, else the file name of its executable.
pub open spec fn profile_key<W>(profiles: Map<Seq<char>, W>, app: Seq<char>) -> Option<Seq<char>> {
    let by_name = "exe:"@ + small_letters(file_name(app));
    if profiles.contains_key(app) {
        Some(app)
    } else if is_executable(file_name(app)) && profiles.contains_key(by_name) {
        Some(by_name)
    } else {
        None
    }
}

/// Profiles without those that hold nothing.
pub open spec fn without_empty(profiles: Map<Seq<char>, Map<ButtonId, ActionModel>>) -> Map<
    Seq<char>,
    Map<ButtonId, ActionModel>,
> {
    Map::new(
        |app: Seq<char>|
            profiles.contains_key(app) && profiles[app] != Map::<ButtonId, ActionModel>::empty(),
        |app: Seq<char>| profiles[app],
    )
}

/// Whether each button is in gesture mode on a device.
pub open spec fn in_gesture_mode(device: DeviceModel) -> spec_fn(ButtonId) -> bool {
    |button: ButtonId| device.gesture_mode(button)
}

impl DeviceModel {
    /// What is stored for a button, else its default.
    pub open spec fn binding_or_default(self, button: ButtonId) -> BindingModel {
        if self.bindings.contains_key(button) {
            self.bindings[button]
        } else {
            default_shape(button)
        }
    }

    /// Whether a button is in gesture mode.
    pub open spec fn gesture_mode(self, button: ButtonId) -> bool {
        self.binding_or_default(button) is Gesture
    }

    /// A button bound.
    pub open spec fn with_binding(self, button: ButtonId, binding: BindingModel) -> DeviceModel {
        DeviceModel { bindings: self.bindings.insert(button, binding), ..self }
    }

    /// One direction of a button bound, the button turned to gesture mode.
    pub open spec fn with_direction(
        self,
        button: ButtonId,
        direction: GestureDirection,
        action: ActionModel,
    ) -> DeviceModel {
        let map = self.binding_or_default(button).upgraded()->Gesture_0;
        self.with_binding(button, BindingModel::Gesture(map.insert(direction, action)))
    }

    /// Gesture mode switched on for a button: what was stashed when it was
    /// switched off comes back; else what a press did becomes the click, and
    /// directions without an action get their defaults.
    pub open spec fn with_gestures_on(self, button: ButtonId) -> DeviceModel {
        if self.disabled_gestures.contains_key(button) {
            DeviceModel {
                disabled_gestures: self.disabled_gestures.remove(button),
                bindings: self.bindings.insert(
                    button,
                    BindingModel::Gesture(self.disabled_gestures[button]),
                ),
                ..self
            }
        } else {
            self.with_binding(button, self.binding_or_default(button).upgraded().filled())
        }
    }

    /// Gesture mode switched off for a button: its directions are stashed and
    /// its click becomes what a press does.
    pub open spec fn with_gestures_off(self, button: ButtonId) -> DeviceModel {
        if self.bindings.contains_key(button) {
            DeviceModel {
                disabled_gestures: match self.bindings[button] {
                    BindingModel::Gesture(map) => self.disabled_gestures.insert(button, map),
                    _ => self.disabled_gestures,
                },
                bindings: self.bindings.insert(
                    button,
                    self.bindings[button].demoted(default_action(button)@),
                ),
                ..self
            }
        } else if default_shape(button) is Gesture {
            DeviceModel {
                disabled_gestures: self.disabled_gestures.insert(button, default_directions()),
                bindings: self.bindings.insert(
                    button,
                    BindingModel::Single(default_action(button)@),
                ),
                ..self
            }
        } else {
            self
        }
    }

    /// The bindings while `app` is in front.
    pub open spec fn bindings_under(self, app: Option<Seq<char>>) -> Map<ButtonId, BindingModel> {
        match app {
            Some(app) => match profile_key(self.per_app_bindings, app) {
                Some(key) => self.bindings.union_prefer_right(
                    as_single_bindings(self.per_app_bindings[key]),
                ),
                None => self.bindings,
            },
            None => self.bindings,
        }
    }

    /// One button of an application's profile set or cleared.
    pub open spec fn with_app_binding(
        self,
        app: Seq<char>,
        button: ButtonId,
        action: Option<ActionModel>,
    ) -> DeviceModel {
        let profile = if self.per_app_bindings.contains_key(app) {
            self.per_app_bindings[app]
        } else {
            Map::empty()
        };
        let changed = match action {
            Some(action) => profile.insert(button, action),
            None => profile.remove(button),
        };
        DeviceModel {
            per_app_bindings: without_empty(self.per_app_bindings.insert(app, changed)),
            ..self
        }
    }
}

fn file_name_of(path: &str) -> (name: String)
    ensures
        name@ == file_name(path@),
{
    let n: usize = path.unicode_len();
    let mut i: usize = n;
    proof {
        assert(path@.skip(n as int) =~= Seq::<char>::empty());
        assert(path@.take(n as int) =~= path@);
    }
    while i > 0
        invariant
            i <= n,
            n == path@.len(),
            file_name(path@) == file_name(path@.take(i as int)) + path@.skip(i as int),
        decreases i,
    {
        let c: char = path.get_char(i - 1);
        if c == '\\' || c == '/' {
            proof {
                assert(file_name(path@.take(i as int)) =~= Seq::<char>::empty());
                assert(file_name(path@) =~= path@.skip(i as int));
                assert(path@.skip(i as int) =~= path@.subrange(i as int, n as int));
            }
            return path.substring_char(i, n).to_owned();
        }
        proof {
            assert(path@.take(i as int).drop_last() =~= path@.take(i - 1));
            assert(file_name(path@) =~= file_name(path@.take(i - 1)) + path@.skip(i - 1));
        }
        i -= 1;
    }
    proof {
        assert(file_name(path@.take(0)) =~= Seq::<char>::empty());
        assert(file_name(path@) =~= path@);
    }
    path.to_owned()
}

fn executable(name: &str) -> (yes: bool)
    ensures
        yes == is_executable(name@),
{
    let n: usize = name.unicode_len();
    if n <= 4 {
        return false;
    }
    let end = to_small_letters(name.substring_char(n - 4, n));
    assert(name@.subrange(n - 4, n as int) =~= name@.skip(n - 4));
    same_text(end.as_str(), ".exe")
}

/// The profile for the application in front, if there is one.
fn app_overlay<'a, T: View>(overlays: &'a OrderedMap<String, T>, app: &str) -> (overlay: Option<
    &'a T,
>)
    ensures
        match overlay {
            Some(value) => profile_key(overlays@, app@) matches Some(key) && value@
                == overlays@[key],
            None => profile_key(overlays@, app@) is None,
        },
{
    if let Some(overlay) = overlays.get(app) {
        return Some(overlay);
    }
    let name = file_name_of(app);
    if !executable(name.as_str()) {
        return None;
    }
    let small = to_small_letters(name.as_str());
    let key = joined("exe:", small.as_str());
    overlays.get(key.as_str())
}

fn pruned(profiles: &OrderedMap<String, OrderedMap<ButtonId, Action>>) -> (kept: OrderedMap<
    String,
    OrderedMap<ButtonId, Action>,
>)
    ensures
        kept@ == without_empty(profiles@),
{
    let mut kept: OrderedMap<String, OrderedMap<ButtonId, Action>> = OrderedMap::new();
    let n: usize = profiles.len();
    let mut i: usize = 0;
    while i < n
        invariant
            n == profiles.order().len(),
            is_key_order::<String, Map<ButtonId, ActionModel>>(profiles.order(), profiles@),
            i <= n,
            forall|app: Seq<char>| #[trigger]
                kept@.contains_key(app) <==> profiles.order().take(i as int).contains(app)
                    && profiles@[app] != Map::<ButtonId, ActionModel>::empty(),
            forall|app: Seq<char>| #[trigger]
                kept@.contains_key(app) ==> kept@[app] == profiles@[app],
        decreases n - i,
    {
        if !profiles.value_at(i).is_empty() {
            let _ = kept.insert(profiles.key_at(i).replicate(), profiles.value_at(i).replicate());
        }
        proof {
            assert forall|app: Seq<char>| #[trigger]
                kept@.contains_key(app) <==> profiles.order().take(i + 1).contains(app)
                    && profiles@[app] != Map::<ButtonId, ActionModel>::empty() by {
                lemma_taken_one_more(profiles.order(), i as int, app);
            }
        }
        i += 1;
    }
    proof {
        assert(profiles.order().take(n as int) =~= profiles.order());
        assert forall|app: Seq<char>| profiles@.contains_key(app) <==> #[trigger]
            profiles.order().contains(app) by {
            if profiles.order().contains(app) {
                assert(profiles.order()[profiles.order().index_of(app)] == app);
            }
        }
        assert(kept@ =~= without_empty(profiles@));
    }
    kept
}

impl Default for Config {
    fn default() -> (config: Self)
        ensures
            config@ == ConfigModel::unset(),
    {
        Config {
            schema_version: SCHEMA_VERSION,
            app_settings: AppSettings::default(),
            selected_device: None,
            ephemeral: false,
            devices: OrderedMap::new(),
            keyboard: KeyboardConfig::default(),
        }
    }
}

impl Config {
    /// A configuration that is never written out.
    pub fn ephemeral() -> (config: Config)
        ensures
            config@ == (ConfigModel { ephemeral: true, ..ConfigModel::unset() }),
    {
        let mut config = Config::default();
        config.ephemeral = true;
        config
    }

    /// A device's settings, for changing in place.
    fn device_mut(&mut self, device_key: &str) -> (device: &mut DeviceConfig)
        ensures
            device@ == old(self)@.device(device_key@),
            final(self)@ == old(self)@.with_device(device_key@, final(device)@),
    {
        self.devices.get_or_insert(device_key.to_owned(), DeviceConfig::default())
    }

    /// The bindings stored for a device.
    pub fn bindings_for(&self, device_key: &str) -> (bindings: OrderedMap<ButtonId, Binding>)
        ensures
            bindings@ == self@.device(device_key@).bindings,
    {
        match self.devices.get(device_key) {
            Some(device) => device.bindings.replicate(),
            None => OrderedMap::new(),
        }
    }

    /// Bind a button of a device.
    pub fn set_binding(&mut self, device_key: &str, button: ButtonId, binding: Binding)
        requires
            button.touchpad() ==> binding is Single,
        ensures
            final(self)@ == old(self)@.with_device(
                device_key@,
                old(self)@.device(device_key@).with_binding(button, binding@),
            ),
    {
        let device = self.device_mut(device_key);
        let _ = device.bindings.insert(button, binding);
    }

    /// Bind a touchpad trigger of a device.
    pub fn set_touchpad_binding(
        &mut self,
        device_key: &str,
        trigger: ButtonId,
        action: Action,
    ) -> (result: Result<(), TouchpadTriggerError>)
        ensures
            match result {
                Ok(_) => trigger.touchpad() && final(self)@ == old(self)@.with_device(
                    device_key@,
                    old(self)@.device(device_key@).with_binding(
                        trigger,
                        BindingModel::Single(action@),
                    ),
                ),
                Err(error) => !trigger.touchpad() && error.0 == trigger && final(self)@ == old(
                    self,
                )@,
            },
    {
        if !trigger.is_touchpad_gesture() {
            return Err(TouchpadTriggerError(trigger));
        }
        self.set_binding(device_key, trigger, Binding::Single(action));
        Ok(())
    }

    /// Bind a keyboard trigger, or clear what it is bound to.
    pub fn set_keyboard_binding(&mut self, trigger: KeyTrigger, action: Option<Action>)
        ensures
            final(self)@ == (ConfigModel {
                keyboard: match action {
                    Some(action) => old(self)@.keyboard.insert(trigger, action@),
                    None => old(self)@.keyboard.remove(trigger),
                },
                ..old(self)@
            }),
    {
        match action {
            Some(action) => {
                let _ = self.keyboard.bindings.insert(trigger, action);
            },
            None => {
                let _ = self.keyboard.bindings.remove(&trigger);
            },
        }
    }

    /// The keyboard bindings.
    pub fn keyboard_bindings(&self) -> (bindings: &OrderedMap<KeyTrigger, Action>)
        ensures
            bindings@ == self@.keyboard,
    {
        &self.keyboard.bindings
    }

    /// Bind one direction of a button, turning the button to gesture mode.
    pub fn set_gesture_direction(
        &mut self,
        device_key: &str,
        button: ButtonId,
        direction: GestureDirection,
        action: Action,
    )
        requires
            !button.touchpad(),
        ensures
            final(self)@ == old(self)@.with_device(
                device_key@,
                old(self)@.device(device_key@).with_direction(button, direction, action@),
            ),
    {
        let binding = self.ensure_gesture_binding(device_key, button);
        if let Binding::Gesture(map) = binding {
            let _ = map.insert(direction, action);
        }
    }

    /// Turn a button to gesture mode.
    fn ensure_gesture_binding(&mut self, device_key: &str, button: ButtonId) -> (binding:
        &mut Binding)
        requires
            !button.touchpad(),
        ensures
            binding@ == old(self)@.device(device_key@).binding_or_default(button).upgraded(),
            final(self)@ == old(self)@.with_device(
                device_key@,
                old(self)@.device(device_key@).with_binding(button, final(binding)@),
            ),
    {
        let device = self.device_mut(device_key);
        let binding = device.bindings.get_or_insert(button, default_binding_for(button));
        binding.upgrade_to_gesture();
        binding
    }

    /// Whether a button is in gesture mode: a direction map is stored for it, or
    /// nothing is and its default is one.
    pub fn is_gesture_mode(&self, device_key: &str, button: ButtonId) -> (yes: bool)
        ensures
            yes == self@.device(device_key@).gesture_mode(button),
    {
        match self.devices.get(device_key) {
            Some(device) => match device.bindings.get(&button) {
                Some(binding) => binding.is_gesture(),
                None => default_binding_for(button).is_gesture(),
            },
            None => default_binding_for(button).is_gesture(),
        }
    }

    /// Every button of a device that is in gesture mode, in their order.
    pub fn gesture_mode_buttons(&self, device_key: &str) -> (buttons: Vec<ButtonId>)
        ensures
            buttons@ == ButtonId::ALL@.filter(in_gesture_mode(self@.device(device_key@))),
    {
        let mut buttons: Vec<ButtonId> = Vec::new();
        let ghost pred = in_gesture_mode(self@.device(device_key@));
        let ghost all = ButtonId::ALL@;
        let mut i: usize = 0;
        proof {
            reveal(Seq::filter);
            assert(all.take(0).filter(pred) =~= Seq::<ButtonId>::empty());
        }
        while i < ButtonId::ALL.len()
            invariant
                all == ButtonId::ALL@,
                i <= all.len(),
                pred == in_gesture_mode(self@.device(device_key@)),
                buttons@ == all.take(i as int).filter(pred),
            decreases all.len() - i,
        {
            let button: ButtonId = ButtonId::ALL[i];
            if self.is_gesture_mode(device_key, button) {
                buttons.push(button);
            }
            proof {
                reveal(Seq::filter);
                assert(all.take(i + 1).drop_last() =~= all.take(i as int));
                assert(all.take(i + 1).last() == button);
            }
            i += 1;
        }
        assert(all.take(i as int) =~= all);
        buttons
    }

    /// Switch gesture mode on or off for one button.
    pub fn set_gesture_mode(&mut self, device_key: &str, button: ButtonId, enabled: bool)
        requires
            enabled && button.touchpad() ==> old(self)@.device(
                device_key@,
            ).disabled_gestures.contains_key(button),
        ensures
            final(self)@ == old(self)@.with_device(
                device_key@,
                if enabled {
                    old(self)@.device(device_key@).with_gestures_on(button)
                } else {
                    old(self)@.device(device_key@).with_gestures_off(button)
                },
            ),
    {
        if enabled {
            let device = self.device_mut(device_key);
            let ghost before = device@;
            if let Some(map) = device.disabled_gestures.remove(&button) {
                let _ = device.bindings.insert(button, Binding::Gesture(map));
                return;
            }
            assert(device@.disabled_gestures =~= before.disabled_gestures);
            assert(device@ =~= before);
            let binding = self.ensure_gesture_binding(device_key, button);
            binding.fill_gesture_defaults();
            assert(self@ =~= old(self)@.with_device(
                device_key@,
                old(self)@.device(device_key@).with_gestures_on(button),
            ));
            return;
        }
        let device = self.device_mut(device_key);
        let ghost before = device@;
        let stored: Option<Option<DirectionMap>> = match device.bindings.get(&button) {
            Some(Binding::Gesture(map)) => Some(Some(map.replicate())),
            Some(_) => Some(None),
            None => None,
        };
        match stored {
            Some(map) => {
                if let Some(map) = map {
                    let _ = device.disabled_gestures.insert(button, map);
                }
                if let Some(binding) = device.bindings.get_mut(&button) {
                    binding.demote_to_single(default_binding(button));
                }
            },
            None => {
                if default_binding_for(button).is_gesture() {
                    let _ = device.disabled_gestures.insert(button, default_direction_map());
                    let _ = device.bindings.insert(
                        button,
                        Binding::Single(default_binding(button)),
                    );
                }
            },
        }
        assert(device@ =~= before.with_gestures_off(button));
    }

    /// The bindings of a device while `bundle_id` is in front.
    pub fn effective_bindings(
        &self,
        device_key: &str,
        bundle_id: Option<&str>,
    ) -> (bindings: OrderedMap<ButtonId, Binding>)
        ensures
            bindings@ == self@.device(device_key@).bindings_under(
                match bundle_id {
                    Some(app) => Some(app@),
                    None => None,
                },
            ),
    {
        let device = match self.devices.get(device_key) {
            Some(device) => device,
            None => {
                assert(self@.device(device_key@).bindings_under(
                    match bundle_id {
                        Some(app) => Some(app@),
                        None => None,
                    },
                ) =~= Map::<ButtonId, BindingModel>::empty());
                return OrderedMap::new();
            },
        };
        if let Some(app) = bundle_id {
            if let Some(overlay) = app_overlay(&device.per_app_bindings, app) {
                let mut bindings = single_bindings(overlay);
                bindings.absorb(device.bindings.replicate());
                return bindings;
            }
        }
        device.bindings.replicate()
    }

    /// Set or clear one button of an application's profile.
    pub fn set_per_app_binding(
        &mut self,
        device_key: &str,
        bundle_id: &str,
        button: ButtonId,
        action: Option<Action>,
    )
        ensures
            final(self)@ == old(self)@.with_device(
                device_key@,
                old(self)@.device(device_key@).with_app_binding(bundle_id@, button, opt(action)),
            ),
    {
        let device = self.device_mut(device_key);
        let profile = device.per_app_bindings.get_or_insert(
            bundle_id.to_owned(),
            OrderedMap::new(),
        );
        match action {
            Some(action) => {
                let _ = profile.insert(button, action);
            },
            None => {
                let _ = profile.remove(&button);
            },
        }
        device.per_app_bindings = pruned(&device.per_app_bindings);
    }

    /// What a device's profile for exactly `app` holds, if anything.
    pub fn per_app_overrides(
        &self,
        device_key: &str,
        app: &str,
    ) -> (overrides: Option<&OrderedMap<ButtonId, Action>>)
        ensures
            match overrides {
                Some(profile) => {
                    &&& self@.device(device_key@).per_app_bindings.contains_key(app@)
                    &&& profile@ == self@.device(device_key@).per_app_bindings[app@]
                    &&& profile@ != Map::<ButtonId, ActionModel>::empty()
                },
                None => self@.device(device_key@).per_app_bindings.contains_key(app@)
                    ==> self@.device(device_key@).per_app_bindings[app@] == Map::<
                    ButtonId,
                    ActionModel,
                >::empty(),
            },
    {
        match self.devices.get(device_key) {
            Some(device) => match device.per_app_bindings.get(app) {
                Some(profile) => if profile.is_empty() {
                    None
                } else {
                    Some(profile)
                },
                None => None,
            },
            None => None,
        }
    }

    /// Every application that a device has a profile for, in key order.
    pub fn app_profiles(&self, device_key: &str) -> (apps: Vec<String>)
        ensures
            is_key_order::<String, Map<ButtonId, ActionModel>>(
                each(apps@),
                self@.device(device_key@).per_app_bindings,
            ),
    {
        let mut apps: Vec<String> = Vec::new();
        if let Some(device) = self.devices.get(device_key) {
            let profiles = &device.per_app_bindings;
            let n: usize = profiles.len();
            let mut i: usize = 0;
            while i < n
                invariant
                    n == profiles.order().len(),
                    i <= n,
                    each(apps@) == profiles.order().take(i as int),
                decreases n - i,
            {
                let ghost was = each(apps@);
                apps.push(profiles.key_at(i).replicate());
                i += 1;
                assert(each(apps@) =~= was.push(profiles.order()[i - 1]));
                assert(each(apps@) =~= profiles.order().take(i as int));
            }
            assert(profiles.order().take(i as int) =~= profiles.order());
        }
        apps
    }

    /// Drop a device's whole profile for `app`.
    pub fn remove_app_profile(&mut self, device_key: &str, app: &str)
        ensures
            final(self)@ == if old(self)@.devices.contains_key(device_key@) {
                old(self)@.with_device(
                    device_key@,
                    (DeviceModel {
                        per_app_bindings: old(self)@.device(device_key@).per_app_bindings.remove(
                            app@,
                        ),
                        ..old(self)@.device(device_key@)
                    }),
                )
            } else {
                old(self)@
            },
    {
        if let Some(device) = self.devices.get_mut(device_key) {
            let _ = device.per_app_bindings.remove(app);
        }
    }

    /// A device's Actions Ring.
    pub fn action_ring(&self, device_key: &str) -> (ring: ActionRingConfig)
        ensures
            ring@ == self@.device(device_key@).action_ring,
    {
        match self.devices.get(device_key) {
            Some(device) => device.action_ring.replicate(),
            None => ActionRingConfig::default(),
        }
    }

    /// Switch a device's Actions Ring on or off.
    pub fn set_action_ring_enabled(&mut self, device_key: &str, enabled: bool)
        ensures
            final(self)@ == old(self)@.with_device(
                device_key@,
                (DeviceModel {
                    action_ring: (RingModel {
                        enabled,
                        ..old(self)@.device(device_key@).action_ring
                    }),
                    ..old(self)@.device(device_key@)
                }),
            ),
    {
        let device = self.device_mut(device_key);
        device.action_ring.enabled = enabled;
    }

    /// Whether raw touchpad capture is switched on for a device.
    pub fn touchpad_gestures_enabled(&self, device_key: &str) -> (enabled: bool)
        ensures
            enabled == self@.device(device_key@).touchpad_gestures,
    {
        match self.devices.get(device_key) {
            Some(device) => device.touchpad_gestures.enabled,
            None => false,
        }
    }

    /// Switch raw touchpad capture on or off for a device.
    pub fn set_touchpad_gestures_enabled(&mut self, device_key: &str, enabled: bool)
        ensures
            final(self)@ == old(self)@.with_device(
                device_key@,
                (DeviceModel {
                    touchpad_gestures: enabled,
                    ..old(self)@.device(device_key@)
                }),
            ),
    {
        let device = self.device_mut(device_key);
        device.touchpad_gestures = TouchpadGestureSettings { enabled };
    }

    /// Switch the haptics of a device's Actions Ring on or off.
    pub fn set_action_ring_haptics(&mut self, device_key: &str, enabled: bool)
        ensures
            final(self)@ == old(self)@.with_device(
                device_key@,
                (DeviceModel {
                    action_ring: (RingModel {
                        haptics: enabled,
                        ..old(self)@.device(device_key@).action_ring
                    }),
                    ..old(self)@.device(device_key@)
                }),
            ),
    {
        let device = self.device_mut(device_key);
        device.action_ring.haptics = enabled;
    }

    /// Set or clear one slot of a device's Actions Ring.
    pub fn set_action_ring_slot(&mut self, device_key: &str, slot: ActionRingSlot, action: Option<RingAction>)
        ensures
            final(self)@ == old(self)@.with_device(
                device_key@,
                (DeviceModel {
                    action_ring: old(self)@.device(device_key@).action_ring.with_action(
                        slot,
                        opt(action),
                    ),
                    ..old(self)@.device(device_key@)
                }),
            ),
    {
        let device = self.device_mut(device_key);
        device.action_ring.set_action(slot, action);
    }

    /// Set the icon of one slot of a device's Actions Ring, or restore its own.
    pub fn set_action_ring_icon(&mut self, device_key: &str, slot: ActionRingSlot, icon: Option<ActionRingIcon>)
        ensures
            final(self)@ == old(self)@.with_device(
                device_key@,
                (DeviceModel {
                    action_ring: old(self)@.device(device_key@).action_ring.with_icon(
                        slot,
                        icon,
                    ),
                    ..old(self)@.device(device_key@)
                }),
            ),
    {
        let device = self.device_mut(device_key);
        device.action_ring.set_icon(slot, icon);
    }

    /// The key of the device shown.
    pub fn selected_device(&self) -> (key: Option<&str>)
        ensures
            match key {
                Some(key) => self@.selected_device == Some(key@),
                None => self@.selected_device is None,
            },
    {
        match &self.selected_device {
            Some(key) => Some(key.as_str()),
            None => None,
        }
    }

    /// Show another device, or none.
    pub fn set_selected_device(&mut self, key: Option<String>)
        ensures
            final(self)@ == (ConfigModel { selected_device: opt(key), ..old(self)@ }),
    {
        self.selected_device = key;
    }

    /// A device's resolutions to cycle through.
    pub fn dpi_presets(&self, device_key: &str) -> (presets: Vec<Dpi>)
        ensures
            presets@ == self@.device(device_key@).dpi_presets,
    {
        match self.devices.get(device_key) {
            Some(device) => copied(&device.dpi_presets),
            None => Vec::new(),
        }
    }

    /// Replace a device's resolutions to cycle through.
    pub fn set_dpi_presets(&mut self, device_key: &str, presets: Vec<Dpi>)
        ensures
            final(self)@ == old(self)@.with_device(
                device_key@,
                (DeviceModel {
                    dpi_presets: presets@,
                    ..old(self)@.device(device_key@)
                }),
            ),
    {
        let device = self.device_mut(device_key);
        device.dpi_presets = presets;
    }

    /// What is remembered of a device.
    pub fn device_identity(&self, device_key: &str) -> (identity: Option<&DeviceIdentity>)
        ensures
            match identity {
                Some(identity) => self@.device(device_key@).identity == Some(identity@),
                None => self@.device(device_key@).identity is None,
            },
    {
        match self.devices.get(device_key) {
            Some(device) => match &device.identity {
                Some(identity) => Some(identity),
                None => None,
            },
            None => None,
        }
    }

    /// Remember a device, without what tells the unit.
    pub fn set_device_identity(&mut self, device_key: &str, identity: DeviceIdentity)
        ensures
            final(self)@ == old(self)@.with_device(
                device_key@,
                (DeviceModel {
                    identity: Some(identity@.stripped()),
                    ..old(self)@.device(device_key@)
                }),
            ),
    {
        let device = self.device_mut(device_key);
        device.identity = Some(identity.without_unit_identifiers());
    }

    /// Drop everything stored for a device, and say whether there was anything.
    pub fn remove_device(&mut self, device_key: &str) -> (removed: bool)
        ensures
            removed == old(self)@.devices.contains_key(device_key@),
            final(self)@ == (ConfigModel {
                devices: old(self)@.devices.remove(device_key@),
                ..old(self)@
            }),
    {
        self.devices.remove(device_key).is_some()
    }

    /// The name the user gave a device.
    pub fn device_custom_name(&self, device_key: &str) -> (name: Option<&str>)
        ensures
            match name {
                Some(name) => self@.device(device_key@).custom_name == Some(name@),
                None => self@.device(device_key@).custom_name is None,
            },
    {
        match self.devices.get(device_key) {
            Some(device) => match &device.custom_name {
                Some(name) => Some(name.as_str()),
                None => None,
            },
            None => None,
        }
    }

    /// Name a device, or return to the name of its model.
    pub fn set_device_custom_name(&mut self, device_key: &str, custom_name: Option<String>)
        ensures
            final(self)@ == old(self)@.with_device(
                device_key@,
                (DeviceModel {
                    custom_name: opt(custom_name),
                    ..old(self)@.device(device_key@)
                }),
            ),
    {
        let device = self.device_mut(device_key);
        device.custom_name = custom_name;
    }

    /// Whether the application in front has a profile that holds anything.
    pub fn has_app_override(&self, device_key: &str, app: &str) -> (yes: bool)
        ensures
            yes == (profile_key(
                self@.device(device_key@).per_app_bindings,
                app@,
            ) matches Some(key) && self@.device(device_key@).per_app_bindings[key] != Map::<
                ButtonId,
                ActionModel,
            >::empty()),
    {
        match self.devices.get(device_key) {
            Some(device) => match app_overlay(&device.per_app_bindings, app) {
                Some(profile) => !profile.is_empty(),
                None => false,
            },
            None => false,
        }
    }

    /// Every device that something is remembered of, in key order.
    pub fn known_identities(&self) -> (known: Vec<(&str, &DeviceIdentity)>)
        ensures
            is_key_order::<String, DeviceIdentityModel>(
                Seq::new(known@.len(), |i: int| known@[i].0@),
                remembered(self@.devices),
            ),
            forall|i: int|
                0 <= i < known@.len() ==> (#[trigger] known@[i]).1@ == remembered(
                    self@.devices,
                )[known@[i].0@],
    {
        let mut known: Vec<(&str, &DeviceIdentity)> = Vec::new();
        let n: usize = self.devices.len();
        let ghost order = self.devices.order();
        let ghost wanted = remembered(self@.devices);
        let ghost keep = |key: Seq<char>| wanted.contains_key(key);
        let ghost mut at: Seq<int> = Seq::empty();
        let mut i: usize = 0;
        while i < n
            invariant
                n == order.len(),
                order == self.devices.order(),
                wanted == remembered(self@.devices),
                is_key_order::<String, DeviceModel>(order, self@.devices),
                i <= n,
                at.len() == known@.len(),
                forall|j: int|
                    0 <= j < at.len() ==> 0 <= #[trigger] at[j] < i && known@[j].0@ == order[at[j]],
                forall|j: int, k: int| 0 <= j < k < at.len() ==> #[trigger] at[j] < #[trigger] at[k],
                forall|j: int|
                    0 <= j < known@.len() ==> wanted.contains_key((#[trigger] known@[j]).0@)
                        && known@[j].1@ == wanted[known@[j].0@],
                forall|p: int|
                    0 <= p < i && wanted.contains_key(#[trigger] order[p]) ==> at.contains(p),
            decreases n - i,
        {
            let ghost was = at;
            if let Some(identity) = &self.devices.value_at(i).identity {
                known.push((self.devices.key_at(i).as_str(), identity));
                proof {
                    at = at.push(i as int);
                    assert(at.last() == i as int);
                }
            }
            proof {
                assert forall|p: int|
                    0 <= p < i + 1 && wanted.contains_key(#[trigger] order[p]) implies at.contains(
                    p,
                ) by {
                    if p < i {
                        let j = was.index_of(p);
                        assert(was.contains(p));
                        assert(at[j] == p);
                    } else {
                        assert(at[at.len() - 1] == p);
                    }
                }
            }
            i += 1;
        }
        proof {
            let keys = Seq::new(known@.len(), |j: int| known@[j].0@);
            assert forall|j: int, k: int| 0 <= j < k < keys.len() implies <String as crate::ordered::OrderedKey>::before(
                #[trigger] keys[j],
                #[trigger] keys[k],
            ) by {
                assert(at[j] < at[k]);
                assert(keys[j] == order[at[j]]);
                assert(keys[k] == order[at[k]]);
            }
            assert forall|key: Seq<char>| wanted.contains_key(key) implies keys.contains(key) by {
                let p = order.index_of(key);
                assert(order.contains(key));
                assert(order[p] == key);
                let j = at.index_of(p);
                assert(at.contains(p));
                assert(at[j] == p);
                assert(keys[j] == key);
            }
        }
        known
    }

    /// A device's lighting.
    pub fn lighting(&self, device_key: &str) -> (value: Option<Lighting>)
        ensures
            value == self@.device(device_key@).lighting,
    {
        match self.devices.get(device_key) {
            Some(device) => device.lighting,
            None => None,
        }
    }

    /// Set a device's lighting.
    pub fn set_lighting(&mut self, device_key: &str, lighting: Lighting)
        ensures
            final(self)@ == old(self)@.with_device(
                device_key@,
                (DeviceModel {
                    lighting: Some(lighting),
                    ..old(self)@.device(device_key@)
                }),
            ),
    {
        let device = self.device_mut(device_key);
        device.lighting = Some(lighting);
    }

    /// A camera's image controls.
    pub fn camera_controls(&self, device_key: &str) -> (value: Option<CameraControls>)
        ensures
            value == self@.device(device_key@).camera_controls,
    {
        match self.devices.get(device_key) {
            Some(device) => device.camera_controls,
            None => None,
        }
    }

    /// Set a camera's image controls.
    pub fn set_camera_controls(&mut self, device_key: &str, controls: CameraControls)
        ensures
            final(self)@ == old(self)@.with_device(
                device_key@,
                (DeviceModel {
                    camera_controls: Some(controls),
                    ..old(self)@.device(device_key@)
                }),
            ),
    {
        let device = self.device_mut(device_key);
        device.camera_controls = Some(controls);
    }

    /// The image controls of a camera that were saved under a name.
    pub fn camera_profiles(&self, device_key: &str) -> (profiles: OrderedMap<
        String,
        CameraControls,
    >)
        ensures
            profiles@ == self@.device(device_key@).camera_profiles,
    {
        match self.devices.get(device_key) {
            Some(device) => device.camera_profiles.replicate(),
            None => OrderedMap::new(),
        }
    }

    /// Save image controls of a camera under a name.
    pub fn save_camera_profile(&mut self, device_key: &str, name: &str, snap: CameraControls)
        ensures
            final(self)@ == old(self)@.with_device(
                device_key@,
                (DeviceModel {
                    camera_profiles: old(self)@.device(device_key@).camera_profiles.insert(
                        name@,
                        snap,
                    ),
                    ..old(self)@.device(device_key@)
                }),
            ),
    {
        let device = self.device_mut(device_key);
        let _ = device.camera_profiles.insert(name.to_owned(), snap);
    }

    /// Delete what was saved under a name, which is then no longer the one last
    /// applied.
    pub fn delete_camera_profile(&mut self, device_key: &str, name: &str)
        ensures
            final(self)@ == if old(self)@.devices.contains_key(device_key@) {
                old(self)@.with_device(
                    device_key@,
                    (DeviceModel {
                        camera_profiles: old(self)@.device(device_key@).camera_profiles.remove(
                            name@,
                        ),
                        camera_profile: if old(self)@.device(device_key@).camera_profile == Some(
                            name@,
                        ) {
                            None
                        } else {
                            old(self)@.device(device_key@).camera_profile
                        },
                        ..old(self)@.device(device_key@)
                    }),
                )
            } else {
                old(self)@
            },
    {
        if let Some(device) = self.devices.get_mut(device_key) {
            let _ = device.camera_profiles.remove(name);
            let named: bool = match &device.camera_profile {
                Some(applied) => same_text(applied.as_str(), name),
                None => false,
            };
            if named {
                device.camera_profile = None;
            }
        }
    }

    /// The name of the image controls last applied.
    pub fn camera_active_profile(&self, device_key: &str) -> (name: Option<String>)
        ensures
            opt(name) == self@.device(device_key@).camera_profile,
    {
        match self.devices.get(device_key) {
            Some(device) => replicate_opt(&device.camera_profile),
            None => None,
        }
    }

    /// Record the name of the image controls last applied.
    pub fn set_camera_active_profile(&mut self, device_key: &str, name: Option<String>)
        ensures
            final(self)@ == old(self)@.with_device(
                device_key@,
                (DeviceModel {
                    camera_profile: opt(name),
                    ..old(self)@.device(device_key@)
                }),
            ),
    {
        let device = self.device_mut(device_key);
        device.camera_profile = name;
    }

    /// A standalone light's settings.
    pub fn light(&self, device_key: &str) -> (value: Option<LightSettings>)
        ensures
            value == self@.device(device_key@).light,
    {
        match self.devices.get(device_key) {
            Some(device) => device.light,
            None => None,
        }
    }

    /// Set a standalone light's settings.
    pub fn set_light(&mut self, device_key: &str, light: LightSettings)
        ensures
            final(self)@ == old(self)@.with_device(
                device_key@,
                (DeviceModel {
                    light: Some(light),
                    ..old(self)@.device(device_key@)
                }),
            ),
    {
        let device = self.device_mut(device_key);
        device.light = Some(light);
    }

    /// The resolution to restore.
    pub fn dpi(&self, device_key: &str) -> (value: Option<Dpi>)
        ensures
            value == self@.device(device_key@).dpi,
    {
        match self.devices.get(device_key) {
            Some(device) => device.dpi,
            None => None,
        }
    }

    /// Set the resolution to restore.
    pub fn set_dpi(&mut self, device_key: &str, dpi: Dpi)
        ensures
            final(self)@ == old(self)@.with_device(
                device_key@,
                (DeviceModel {
                    dpi: Some(dpi),
                    ..old(self)@.device(device_key@)
                }),
            ),
    {
        let device = self.device_mut(device_key);
        device.dpi = Some(dpi);
    }

    /// A wheel's SmartShift settings.
    pub fn smartshift(&self, device_key: &str) -> (value: Option<SmartShift>)
        ensures
            value == self@.device(device_key@).smartshift,
    {
        match self.devices.get(device_key) {
            Some(device) => device.smartshift,
            None => None,
        }
    }

    /// Whether function keys come without Fn, where that is managed.
    pub fn fn_lock(&self, device_key: &str) -> (value: Option<bool>)
        ensures
            value == self@.device(device_key@).fn_lock,
    {
        match self.devices.get(device_key) {
            Some(device) => device.fn_lock,
            None => None,
        }
    }

    /// Set a wheel's SmartShift settings.
    pub fn set_smartshift(&mut self, device_key: &str, smartshift: SmartShift)
        ensures
            final(self)@ == old(self)@.with_device(
                device_key@,
                (DeviceModel {
                    smartshift: Some(smartshift),
                    ..old(self)@.device(device_key@)
                }),
            ),
    {
        let device = self.device_mut(device_key);
        device.smartshift = Some(smartshift);
    }

    /// Whether a wheel scrolls the other way.
    pub fn invert_scroll(&self, device_key: &str) -> (value: bool)
        ensures
            value == self@.device(device_key@).invert_scroll,
    {
        match self.devices.get(device_key) {
            Some(device) => device.invert_scroll,
            None => false,
        }
    }

    /// Set whether a wheel scrolls the other way.
    pub fn set_invert_scroll(&mut self, device_key: &str, invert: bool)
        ensures
            final(self)@ == old(self)@.with_device(
                device_key@,
                (DeviceModel {
                    invert_scroll: invert,
                    ..old(self)@.device(device_key@)
                }),
            ),
    {
        let device = self.device_mut(device_key);
        device.invert_scroll = invert;
    }

    /// A wheel's resolution, where it is managed.
    pub fn scroll_resolution(&self, device_key: &str) -> (value: Option<ScrollResolution>)
        ensures
            value == self@.device(device_key@).scroll_resolution,
    {
        match self.devices.get(device_key) {
            Some(device) => device.scroll_resolution,
            None => None,
        }
    }

    /// Set a wheel's resolution, or leave it to the device.
    pub fn set_scroll_resolution(&mut self, device_key: &str, resolution: Option<ScrollResolution>)
        ensures
            final(self)@ == old(self)@.with_device(
                device_key@,
                (DeviceModel {
                    scroll_resolution: resolution,
                    ..old(self)@.device(device_key@)
                }),
            ),
    {
        let device = self.device_mut(device_key);
        device.scroll_resolution = resolution;
    }

    /// Whether a device is managed at all.
    pub fn device_enabled(&self, device_key: &str) -> (value: bool)
        ensures
            value == self@.device(device_key@).enabled,
    {
        match self.devices.get(device_key) {
            Some(device) => device.enabled,
            None => true,
        }
    }

    /// Manage a device, or leave it alone.
    pub fn set_device_enabled(&mut self, device_key: &str, enabled: bool)
        ensures
            final(self)@ == old(self)@.with_device(
                device_key@,
                (DeviceModel {
                    enabled: enabled,
                    ..old(self)@.device(device_key@)
                }),
            ),
    {
        let device = self.device_mut(device_key);
        device.enabled = enabled;
    }

    /// A device's thumb wheel sensitivity, the application's where it has none
    /// of its own.
    pub fn thumbwheel_sensitivity(&self, device_key: &str) -> (value: ThumbwheelSensitivity)
        ensures
            value == match self@.device(device_key@).thumbwheel_sensitivity {
                Some(own) => own,
                None => self@.app_settings.thumbwheel_sensitivity,
            },
    {
        match self.devices.get(device_key) {
            Some(device) => match device.thumbwheel_sensitivity {
                Some(own) => own,
                None => self.app_settings.thumbwheel_sensitivity,
            },
            None => self.app_settings.thumbwheel_sensitivity,
        }
    }

    /// Set a device's own thumb wheel sensitivity, or clear it.
    pub fn set_device_thumbwheel_sensitivity(&mut self, device_key: &str, sensitivity: Option<ThumbwheelSensitivity>)
        ensures
            final(self)@ == old(self)@.with_device(
                device_key@,
                (DeviceModel {
                    thumbwheel_sensitivity: sensitivity,
                    ..old(self)@.device(device_key@)
                }),
            ),
    {
        let device = self.device_mut(device_key);
        device.thumbwheel_sensitivity = sensitivity;
    }
}

/// What is remembered of devices, by key.
pub open spec fn remembered(devices: Map<Seq<char>, DeviceModel>) -> Map<
    Seq<char>,
    DeviceIdentityModel,
> {
    Map::new(
        |key: Seq<char>| devices.contains_key(key) && devices[key].identity is Some,
        |key: Seq<char>| devices[key].identity.unwrap(),
    )
}

}
