//! Settings of one physical device.

use vstd::prelude::*;
use vstd::string::StringExecFns;

use crate::binding::action::{Action, ActionModel};
use crate::binding::button::{ButtonId, GestureDirection};
use crate::binding::ring::{ActionRingConfig, RingModel};
use crate::binding::shape::{Binding, BindingModel, DirectionMap};
use crate::config::settings::{
    CameraControls, GestureOwner, LightSettings, Lighting, ThumbwheelSensitivity,
};
use crate::device::{Capabilities, DeviceKind, DeviceModelInfo, LightCapabilities, ModelInfoModel};
use crate::hid::{Dpi, ScrollResolution, SmartShift};
use crate::ordered::{
    copied, each, is_key_order, lemma_taken_one_more, opt, replicate_each, replicate_opt,
    union_keeping_left, OrderedMap, Replicate,
};
use crate::text::joined;

verus! {

/// Raw touchpad capture settings.
#[derive(Clone, Copy, Debug, PartialEq, Eq, Structural)]
pub struct TouchpadGestureSettings {
    /// Whether raw reporting may be switched on for gesture recognition.
    pub enabled: bool,
}

/// What is remembered of a device while it cannot be asked.
///
/// Everything here is a property of the model, not of the unit.
#[derive(Debug, PartialEq, Eq)]
pub struct DeviceIdentity {
    /// The name of the model.
    pub display_name: String,
    /// What the device reported of its model.
    pub model_info: Option<DeviceModelInfo>,
    /// The firmware's own name for the model.
    pub codename: Option<String>,
    /// The kind of device.
    pub kind: DeviceKind,
    /// What the device can be configured to do.
    pub capabilities: Capabilities,
    /// What a standalone light can be told to do.
    pub light_capabilities: Option<LightCapabilities>,
    /// The driver family of a standalone device.
    pub driver_id: Option<String>,
    /// The model in the asset registry.
    pub registry_model_id: Option<String>,
}

/// The model of a [`DeviceIdentity`].
pub ghost struct DeviceIdentityModel {
    pub display_name: Seq<char>,
    pub model_info: Option<ModelInfoModel>,
    pub codename: Option<Seq<char>>,
    pub kind: DeviceKind,
    pub capabilities: Capabilities,
    pub light_capabilities: Option<LightCapabilities>,
    pub driver_id: Option<Seq<char>>,
    pub registry_model_id: Option<Seq<char>>,
}

/// One route a device has been seen on, and what differs on it.
#[derive(Clone, Copy, Debug, PartialEq, Eq, Structural)]
pub struct LinkConfig {
    /// What the device could do when it was last measured on this route.
    pub capabilities: Option<Capabilities>,
    /// Settings that differ on this route.
    pub overrides: LinkOverrides,
}

/// Settings that take the place of the device's own on one route.
#[derive(Clone, Copy, Debug, PartialEq, Eq, Structural)]
pub struct LinkOverrides {
    pub dpi: Option<Dpi>,
    pub invert_scroll: Option<bool>,
    pub scroll_resolution: Option<ScrollResolution>,
    pub lighting: Option<Lighting>,
    pub smartshift: Option<SmartShift>,
}

/// Settings of one physical device.
#[derive(Debug, PartialEq, Eq)]
pub struct DeviceConfig {
    /// Whether the device is managed at all.
    pub enabled: bool,
    /// The name the user gave the device.
    pub custom_name: Option<String>,
    /// The one button that swiped, in files that allowed only one.
    pub gesture_owner: Option<GestureOwner>,
    /// What is remembered of the device while it cannot be asked.
    pub identity: Option<DeviceIdentity>,
    /// The routes the device has been seen on.
    pub links: OrderedMap<String, LinkConfig>,
    /// What each control does.
    pub bindings: OrderedMap<ButtonId, Binding>,
    /// The direction maps of buttons whose gesture mode is off.
    pub disabled_gestures: OrderedMap<ButtonId, DirectionMap>,
    /// What controls do while an application is in front.
    pub per_app_bindings: OrderedMap<String, OrderedMap<ButtonId, Action>>,
    /// Raw touchpad capture.
    pub touchpad_gestures: TouchpadGestureSettings,
    /// The Actions Ring.
    pub action_ring: ActionRingConfig,
    /// The resolutions cycled through.
    pub dpi_presets: Vec<Dpi>,
    /// The resolution to restore.
    pub dpi: Option<Dpi>,
    /// Keyboard lighting.
    pub lighting: Option<Lighting>,
    /// A standalone light.
    pub light: Option<LightSettings>,
    /// The wheel's SmartShift settings.
    pub smartshift: Option<SmartShift>,
    /// Image controls of a camera.
    pub camera_controls: Option<CameraControls>,
    /// Image controls saved under a name.
    pub camera_profiles: OrderedMap<String, CameraControls>,
    /// The saved image controls last applied.
    pub camera_profile: Option<String>,
    /// Thumb wheel sensitivity, where it is not the application's.
    pub thumbwheel_sensitivity: Option<ThumbwheelSensitivity>,
    /// Whether the wheel scrolls the other way.
    pub invert_scroll: bool,
    /// How finely the wheel reports its turns, where it is managed.
    pub scroll_resolution: Option<ScrollResolution>,
    /// The devices that follow this keyboard to another host.
    pub host_switch_targets: Vec<String>,
    /// Whether the function keys come without Fn, where it is managed.
    pub fn_lock: Option<bool>,
}

/// The model of a [`DeviceConfig`].
#[verifier::ext_equal]
pub ghost struct DeviceModel {
    pub enabled: bool,
    pub custom_name: Option<Seq<char>>,
    pub gesture_owner: Option<GestureOwner>,
    pub identity: Option<DeviceIdentityModel>,
    pub links: Map<Seq<char>, LinkConfig>,
    pub bindings: Map<ButtonId, BindingModel>,
    pub disabled_gestures: Map<ButtonId, Map<GestureDirection, ActionModel>>,
    pub per_app_bindings: Map<Seq<char>, Map<ButtonId, ActionModel>>,
    pub touchpad_gestures: bool,
    pub action_ring: RingModel,
    pub dpi_presets: Seq<Dpi>,
    pub dpi: Option<Dpi>,
    pub lighting: Option<Lighting>,
    pub light: Option<LightSettings>,
    pub smartshift: Option<SmartShift>,
    pub camera_controls: Option<CameraControls>,
    pub camera_profiles: Map<Seq<char>, CameraControls>,
    pub camera_profile: Option<Seq<char>>,
    pub thumbwheel_sensitivity: Option<ThumbwheelSensitivity>,
    pub invert_scroll: bool,
    pub scroll_resolution: Option<ScrollResolution>,
    pub host_switch_targets: Seq<Seq<char>>,
    pub fn_lock: Option<bool>,
}

impl View for DeviceIdentity {
    type V = DeviceIdentityModel;

    open spec fn view(&self) -> DeviceIdentityModel {
        DeviceIdentityModel {
            display_name: self.display_name@,
            model_info: opt(self.model_info),
            codename: opt(self.codename),
            kind: self.kind,
            capabilities: self.capabilities,
            light_capabilities: self.light_capabilities,
            driver_id: opt(self.driver_id),
            registry_model_id: opt(self.registry_model_id),
        }
    }
}

impl Replicate for DeviceIdentity {
    fn replicate(&self) -> (copy: Self) {
        DeviceIdentity {
            display_name: self.display_name.replicate(),
            model_info: replicate_opt(&self.model_info),
            codename: replicate_opt(&self.codename),
            kind: self.kind,
            capabilities: self.capabilities,
            light_capabilities: self.light_capabilities,
            driver_id: replicate_opt(&self.driver_id),
            registry_model_id: replicate_opt(&self.registry_model_id),
        }
    }
}

impl Clone for DeviceIdentity {
    fn clone(&self) -> (copy: Self)
        ensures
            copy@ == self@,
    {
        self.replicate()
    }
}

impl Replicate for LinkConfig {
    fn replicate(&self) -> (copy: Self) {
        *self
    }
}

impl View for LinkConfig {
    type V = LinkConfig;

    open spec fn view(&self) -> LinkConfig {
        *self
    }
}

impl View for DeviceConfig {
    type V = DeviceModel;

    open spec fn view(&self) -> DeviceModel {
        DeviceModel {
            enabled: self.enabled,
            custom_name: opt(self.custom_name),
            gesture_owner: self.gesture_owner,
            identity: opt(self.identity),
            links: self.links@,
            bindings: self.bindings@,
            disabled_gestures: self.disabled_gestures@,
            per_app_bindings: self.per_app_bindings@,
            touchpad_gestures: self.touchpad_gestures.enabled,
            action_ring: self.action_ring@,
            dpi_presets: self.dpi_presets@,
            dpi: self.dpi,
            lighting: self.lighting,
            light: self.light,
            smartshift: self.smartshift,
            camera_controls: self.camera_controls,
            camera_profiles: self.camera_profiles@,
            camera_profile: opt(self.camera_profile),
            thumbwheel_sensitivity: self.thumbwheel_sensitivity,
            invert_scroll: self.invert_scroll,
            scroll_resolution: self.scroll_resolution,
            host_switch_targets: each(self.host_switch_targets@),
            fn_lock: self.fn_lock,
        }
    }
}

impl Replicate for DeviceConfig {
    fn replicate(&self) -> (copy: Self) {
        DeviceConfig {
            enabled: self.enabled,
            custom_name: replicate_opt(&self.custom_name),
            gesture_owner: self.gesture_owner,
            identity: replicate_opt(&self.identity),
            links: self.links.replicate(),
            bindings: self.bindings.replicate(),
            disabled_gestures: self.disabled_gestures.replicate(),
            per_app_bindings: self.per_app_bindings.replicate(),
            touchpad_gestures: self.touchpad_gestures,
            action_ring: self.action_ring.replicate(),
            dpi_presets: copied(&self.dpi_presets),
            dpi: self.dpi,
            lighting: self.lighting,
            light: self.light,
            smartshift: self.smartshift,
            camera_controls: self.camera_controls,
            camera_profiles: self.camera_profiles.replicate(),
            camera_profile: replicate_opt(&self.camera_profile),
            thumbwheel_sensitivity: self.thumbwheel_sensitivity,
            invert_scroll: self.invert_scroll,
            scroll_resolution: self.scroll_resolution,
            host_switch_targets: replicate_each(&self.host_switch_targets),
            fn_lock: self.fn_lock,
        }
    }
}

impl Clone for DeviceConfig {
    fn clone(&self) -> (copy: Self)
        ensures
            copy@ == self@,
    {
        self.replicate()
    }
}

impl Default for TouchpadGestureSettings {
    fn default() -> (settings: Self)
        ensures
            !settings.enabled,
    {
        TouchpadGestureSettings { enabled: false }
    }
}

impl TouchpadGestureSettings {
    /// Whether nothing is set.
    pub fn is_default(&self) -> (yes: bool)
        ensures
            yes == !self.enabled,
    {
        !self.enabled
    }
}

/// A route nothing is known of.
pub open spec fn bare_link() -> LinkConfig {
    LinkConfig { capabilities: None, overrides: no_overrides() }
}

/// Nothing overridden.
pub open spec fn no_overrides() -> LinkOverrides {
    LinkOverrides {
        dpi: None,
        invert_scroll: None,
        scroll_resolution: None,
        lighting: None,
        smartshift: None,
    }
}

impl Default for LinkOverrides {
    fn default() -> (overrides: Self)
        ensures
            overrides == no_overrides(),
    {
        LinkOverrides {
            dpi: None,
            invert_scroll: None,
            scroll_resolution: None,
            lighting: None,
            smartshift: None,
        }
    }
}

impl Default for LinkConfig {
    fn default() -> (link: Self)
        ensures
            link == bare_link(),
    {
        LinkConfig { capabilities: None, overrides: LinkOverrides::default() }
    }
}

impl LinkOverrides {
    /// Whether nothing is overridden on this route.
    pub fn is_empty(&self) -> (empty: bool)
        ensures
            empty == (*self == no_overrides()),
    {
        self.dpi.is_none() && self.invert_scroll.is_none() && self.scroll_resolution.is_none()
            && self.lighting.is_none() && self.smartshift.is_none()
    }
}

/// What a device reported of its model, without what tells the unit.
pub open spec fn without_unit(info: Option<ModelInfoModel>) -> Option<ModelInfoModel> {
    match info {
        Some(model) => Some(
            ModelInfoModel {
                serial_number: None,
                unit_id: seq![0u8, 0u8, 0u8, 0u8],
                ..model
            },
        ),
        None => None,
    }
}

impl DeviceIdentityModel {
    /// The identity without what tells the unit.
    pub open spec fn stripped(self) -> DeviceIdentityModel {
        DeviceIdentityModel { model_info: without_unit(self.model_info), ..self }
    }
}

impl DeviceIdentity {
    /// Remove what tells one unit of the model from another.
    pub fn without_unit_identifiers(self) -> (stripped: Self)
        ensures
            stripped@ == self@.stripped(),
    {
        let mut stripped = self;
        if let Some(model) = stripped.model_info {
            let mut model = model;
            model.serial_number = None;
            model.unit_id = [0, 0, 0, 0];
            assert(model.unit_id@ =~= seq![0u8, 0u8, 0u8, 0u8]);
            stripped.model_info = Some(model);
        }
        stripped
    }
}

impl DeviceModel {
    /// A device nothing is stored for.
    pub open spec fn fresh() -> DeviceModel {
        DeviceModel {
            enabled: true,
            custom_name: None,
            gesture_owner: None,
            identity: None,
            links: Map::empty(),
            bindings: Map::empty(),
            disabled_gestures: Map::empty(),
            per_app_bindings: Map::empty(),
            touchpad_gestures: false,
            action_ring: RingModel::unset(),
            dpi_presets: Seq::empty(),
            dpi: None,
            lighting: None,
            light: None,
            smartshift: None,
            camera_controls: None,
            camera_profiles: Map::empty(),
            camera_profile: None,
            thumbwheel_sensitivity: None,
            invert_scroll: false,
            scroll_resolution: None,
            host_switch_targets: Seq::empty(),
            fn_lock: None,
        }
    }

    /// Whether the user configured anything, beyond what is recorded unasked.
    pub open spec fn holds_settings(self) -> bool {
        DeviceModel { identity: None, links: Map::empty(), ..self } != DeviceModel::fresh()
    }

    /// What is overridden on a route.
    pub open spec fn overrides_on(self, route: Seq<char>) -> LinkOverrides {
        if self.links.contains_key(route) {
            self.links[route].overrides
        } else {
            no_overrides()
        }
    }

    /// The resolution on a route.
    pub open spec fn dpi_on(self, route: Seq<char>) -> Option<Dpi> {
        match self.overrides_on(route).dpi {
            Some(dpi) => Some(dpi),
            None => self.dpi,
        }
    }

    /// Whether the wheel scrolls the other way on a route.
    pub open spec fn invert_scroll_on(self, route: Seq<char>) -> bool {
        match self.overrides_on(route).invert_scroll {
            Some(invert) => invert,
            None => self.invert_scroll,
        }
    }

    /// The wheel's resolution on a route.
    pub open spec fn scroll_resolution_on(self, route: Seq<char>) -> Option<ScrollResolution> {
        match self.overrides_on(route).scroll_resolution {
            Some(resolution) => Some(resolution),
            None => self.scroll_resolution,
        }
    }

    /// Lighting on a route.
    pub open spec fn lighting_on(self, route: Seq<char>) -> Option<Lighting> {
        match self.overrides_on(route).lighting {
            Some(lighting) => Some(lighting),
            None => self.lighting,
        }
    }

    /// SmartShift on a route.
    pub open spec fn smartshift_on(self, route: Seq<char>) -> Option<SmartShift> {
        match self.overrides_on(route).smartshift {
            Some(smartshift) => Some(smartshift),
            None => self.smartshift,
        }
    }

    /// Whether touchpad triggers carry single actions only.
    pub open spec fn touchpad_triggers_are_single(self) -> bool {
        &&& forall|b: ButtonId|
            b.touchpad() && #[trigger] self.bindings.contains_key(b)
                ==> self.bindings[b] is Single
        &&& forall|b: ButtonId|
            b.touchpad() ==> !#[trigger] self.disabled_gestures.contains_key(b)
    }
}

impl Default for DeviceConfig {
    fn default() -> (device: Self)
        ensures
            device@ == DeviceModel::fresh(),
    {
        let device = DeviceConfig {
            enabled: true,
            custom_name: None,
            gesture_owner: None,
            identity: None,
            links: OrderedMap::new(),
            bindings: OrderedMap::new(),
            disabled_gestures: OrderedMap::new(),
            per_app_bindings: OrderedMap::new(),
            touchpad_gestures: TouchpadGestureSettings::default(),
            action_ring: ActionRingConfig::default(),
            dpi_presets: Vec::new(),
            dpi: None,
            lighting: None,
            light: None,
            smartshift: None,
            camera_controls: None,
            camera_profiles: OrderedMap::new(),
            camera_profile: None,
            thumbwheel_sensitivity: None,
            invert_scroll: false,
            scroll_resolution: None,
            host_switch_targets: Vec::new(),
            fn_lock: None,
        };
        assert(device@ =~= DeviceModel::fresh());
        device
    }
}

impl DeviceConfig {
    /// The resolution on a route: the route's own where the user set one there,
    /// else the device's.
    pub fn effective_dpi(&self, route_key: &str) -> (dpi: Option<Dpi>)
        ensures
            dpi == self@.dpi_on(route_key@),
    {
        match self.link_overrides(route_key).dpi {
            Some(dpi) => Some(dpi),
            None => self.dpi,
        }
    }

    /// Whether the wheel scrolls the other way on a route.
    pub fn effective_invert_scroll(&self, route_key: &str) -> (invert: bool)
        ensures
            invert == self@.invert_scroll_on(route_key@),
    {
        match self.link_overrides(route_key).invert_scroll {
            Some(invert) => invert,
            None => self.invert_scroll,
        }
    }

    /// The wheel's resolution on a route.
    pub fn effective_scroll_resolution(&self, route_key: &str) -> (resolution: Option<
        ScrollResolution,
    >)
        ensures
            resolution == self@.scroll_resolution_on(route_key@),
    {
        match self.link_overrides(route_key).scroll_resolution {
            Some(resolution) => Some(resolution),
            None => self.scroll_resolution,
        }
    }

    /// Lighting on a route.
    pub fn effective_lighting(&self, route_key: &str) -> (lighting: Option<Lighting>)
        ensures
            lighting == self@.lighting_on(route_key@),
    {
        match self.link_overrides(route_key).lighting {
            Some(lighting) => Some(lighting),
            None => self.lighting,
        }
    }

    /// SmartShift on a route.
    pub fn effective_smartshift(&self, route_key: &str) -> (smartshift: Option<SmartShift>)
        ensures
            smartshift == self@.smartshift_on(route_key@),
    {
        match self.link_overrides(route_key).smartshift {
            Some(smartshift) => Some(smartshift),
            None => self.smartshift,
        }
    }

    fn link_overrides(&self, route_key: &str) -> (overrides: LinkOverrides)
        ensures
            overrides == self@.overrides_on(route_key@),
    {
        match self.links.get(route_key) {
            Some(link) => link.overrides,
            None => LinkOverrides::default(),
        }
    }

    /// Whether the user configured anything here, as opposed to nothing but the
    /// identity and the routes that are recorded unasked.
    pub fn holds_settings(&self) -> (yes: bool)
        ensures
            yes == self@.holds_settings(),
    {
        let untouched: bool = self.enabled && self.custom_name.is_none()
            && self.gesture_owner.is_none() && self.bindings.is_empty()
            && self.disabled_gestures.is_empty() && self.per_app_bindings.is_empty()
            && self.touchpad_gestures.is_default() && self.action_ring.is_default()
            && self.dpi_presets.len() == 0 && self.dpi.is_none() && self.lighting.is_none()
            && self.light.is_none() && self.smartshift.is_none() && self.camera_controls.is_none()
            && self.camera_profiles.is_empty() && self.camera_profile.is_none()
            && self.thumbwheel_sensitivity.is_none() && !self.invert_scroll
            && self.scroll_resolution.is_none() && self.host_switch_targets.len() == 0
            && self.fn_lock.is_none();
        proof {
            let bare = DeviceModel { identity: None, links: Map::empty(), ..self@ };
            let fresh = DeviceModel::fresh();
            if untouched {
                assert(bare =~= fresh);
            } else if bare == fresh {
                assert(bare.host_switch_targets.len() == 0);
                assert(bare.dpi_presets.len() == 0);
                assert(false);
            }
        }
        !untouched
    }
}

/// A device's settings as a file states them, with what older files kept apart.
pub struct RawDeviceConfig {
    /// What the current layout states.
    pub device: DeviceConfig,
    /// Single actions, in files that kept them apart from gestures.
    pub button_bindings: OrderedMap<ButtonId, Action>,
    /// The gesture button's directions, in such files.
    pub gesture_bindings: DirectionMap,
}

/// Why a file's settings for a device cannot be used.
#[derive(Clone, Copy, Debug, PartialEq, Eq, Structural)]
pub enum DeviceConfigError {
    /// A touchpad trigger carries something other than a single action.
    InvalidTouchpadBinding(ButtonId),
    /// A touchpad trigger carries a direction map that is switched off.
    InvalidDisabledTouchpadGesture(ButtonId),
}

/// Single actions as bindings.
pub open spec fn as_single_bindings(buttons: Map<ButtonId, ActionModel>) -> Map<
    ButtonId,
    BindingModel,
> {
    Map::new(
        |b: ButtonId| buttons.contains_key(b),
        |b: ButtonId| BindingModel::Single(buttons[b]),
    )
}

impl RawDeviceConfig {
    /// The bindings that the file states, the current layout first, then the
    /// gesture button's directions, then the single actions.
    pub open spec fn stated_bindings(&self) -> Map<ButtonId, BindingModel> {
        let gestures = Map::<ButtonId, BindingModel>::empty().insert(
            ButtonId::GestureButton,
            BindingModel::Gesture(self.gesture_bindings@),
        );
        let with_gestures = if self.gesture_bindings@
            == Map::<GestureDirection, ActionModel>::empty() {
            self.device@.bindings
        } else {
            union_keeping_left(self.device@.bindings, gestures)
        };
        union_keeping_left(
            with_gestures,
            as_single_bindings(self.button_bindings@.remove(ButtonId::GestureButton)),
        )
    }
}

/// Whether `button` is a touchpad trigger with something other than a single
/// action.
pub open spec fn misbound(bindings: Map<ButtonId, BindingModel>, button: ButtonId) -> bool {
    button.touchpad() && bindings.contains_key(button) && !(bindings[button] is Single)
}

/// Whether `button` is a touchpad trigger with a direction map.
pub open spec fn misstashed(
    stash: Map<ButtonId, Map<GestureDirection, ActionModel>>,
    button: ButtonId,
) -> bool {
    button.touchpad() && stash.contains_key(button)
}

fn first_misbound(bindings: &OrderedMap<ButtonId, Binding>) -> (found: Option<ButtonId>)
    ensures
        match found {
            Some(button) => {
                &&& misbound(bindings@, button)
                &&& forall|b: ButtonId|
                    #[trigger] misbound(bindings@, b) ==> button.position() <= b.position()
            },
            None => forall|b: ButtonId| !#[trigger] misbound(bindings@, b),
        },
{
    let n: usize = bindings.len();
    let mut i: usize = 0;
    while i < n
        invariant
            n == bindings.order().len(),
            is_key_order::<ButtonId, BindingModel>(bindings.order(), bindings@),
            i <= n,
            forall|j: int| 0 <= j < i ==> !misbound(bindings@, #[trigger] bindings.order()[j]),
        decreases n - i,
    {
        let button: ButtonId = *bindings.key_at(i);
        if button.is_touchpad_gesture() && !matches!(bindings.value_at(i), Binding::Single(_)) {
            proof {
                assert forall|b: ButtonId| #[trigger] misbound(bindings@, b) implies
                    button.position() <= b.position() by {
                    let j = bindings.order().index_of(b);
                    assert(bindings.order().contains(b));
                    assert(bindings.order()[j] == b);
                }
            }
            return Some(button);
        }
        i += 1;
    }
    proof {
        assert forall|b: ButtonId| !#[trigger] misbound(bindings@, b) by {
            if misbound(bindings@, b) {
                assert(bindings.order().contains(b));
                assert(bindings.order()[bindings.order().index_of(b)] == b);
            }
        }
    }
    None
}

fn first_misstashed(stash: &OrderedMap<ButtonId, DirectionMap>) -> (found: Option<ButtonId>)
    ensures
        match found {
            Some(button) => {
                &&& misstashed(stash@, button)
                &&& forall|b: ButtonId|
                    #[trigger] misstashed(stash@, b) ==> button.position() <= b.position()
            },
            None => forall|b: ButtonId| !#[trigger] misstashed(stash@, b),
        },
{
    let n: usize = stash.len();
    let mut i: usize = 0;
    while i < n
        invariant
            n == stash.order().len(),
            is_key_order::<ButtonId, Map<GestureDirection, ActionModel>>(stash.order(), stash@),
            i <= n,
            forall|j: int| 0 <= j < i ==> !misstashed(stash@, #[trigger] stash.order()[j]),
        decreases n - i,
    {
        let button: ButtonId = *stash.key_at(i);
        if button.is_touchpad_gesture() {
            proof {
                assert forall|b: ButtonId| #[trigger] misstashed(stash@, b) implies
                    button.position() <= b.position() by {
                    assert(stash.order().contains(b));
                    assert(stash.order()[stash.order().index_of(b)] == b);
                }
            }
            return Some(button);
        }
        i += 1;
    }
    proof {
        assert forall|b: ButtonId| !#[trigger] misstashed(stash@, b) by {
            if misstashed(stash@, b) {
                assert(stash.order().contains(b));
                assert(stash.order()[stash.order().index_of(b)] == b);
            }
        }
    }
    None
}

/// Single actions as bindings.
pub fn single_bindings(buttons: &OrderedMap<ButtonId, Action>) -> (bindings: OrderedMap<
    ButtonId,
    Binding,
>)
    ensures
        bindings@ == as_single_bindings(buttons@),
{
    let mut bindings: OrderedMap<ButtonId, Binding> = OrderedMap::new();
    let n: usize = buttons.len();
    let mut i: usize = 0;
    while i < n
        invariant
            n == buttons.order().len(),
            is_key_order::<ButtonId, ActionModel>(buttons.order(), buttons@),
            i <= n,
            forall|b: ButtonId| #[trigger]
                bindings@.contains_key(b) <==> buttons.order().take(i as int).contains(b),
            forall|b: ButtonId| #[trigger]
                bindings@.contains_key(b) ==> bindings@[b] == BindingModel::Single(buttons@[b]),
        decreases n - i,
    {
        let button: ButtonId = *buttons.key_at(i);
        let _ = bindings.insert(button, Binding::Single(buttons.value_at(i).replicate()));
        proof {
            assert forall|b: ButtonId| #[trigger]
                bindings@.contains_key(b) <==> buttons.order().take(i + 1).contains(b) by {
                lemma_taken_one_more(buttons.order(), i as int, b);
            }
        }
        i += 1;
    }
    proof {
        assert(buttons.order().take(n as int) =~= buttons.order());
        assert forall|b: ButtonId| buttons@.contains_key(b) <==> #[trigger]
            buttons.order().contains(b) by {
            if buttons.order().contains(b) {
                assert(buttons.order()[buttons.order().index_of(b)] == b);
            }
        }
        assert(bindings@ =~= as_single_bindings(buttons@));
    }
    bindings
}

impl DeviceConfigError {
    /// What went wrong, in words.
    pub fn message(&self) -> (text: String)
        ensures
            text@ == match *self {
                DeviceConfigError::InvalidTouchpadBinding(button) => "touchpad trigger "@
                    + button.label_text() + " must have a single-action binding"@,
                DeviceConfigError::InvalidDisabledTouchpadGesture(button) => "touchpad trigger "@
                    + button.label_text() + " cannot store a disabled directional gesture"@,
            },
    {
        match self {
            DeviceConfigError::InvalidTouchpadBinding(button) => {
                let mut text = joined("touchpad trigger ", button.label());
                text.append(" must have a single-action binding");
                text
            },
            DeviceConfigError::InvalidDisabledTouchpadGesture(button) => {
                let mut text = joined("touchpad trigger ", button.label());
                text.append(" cannot store a disabled directional gesture");
                text
            },
        }
    }
}

impl DeviceConfig {
    /// Read a device's settings as a file states them.
    ///
    /// Bindings that older files kept apart are taken where the current layout
    /// has none. What tells the unit is removed from the identity. A touchpad
    /// trigger with anything but a single action makes the settings unusable.
    pub fn try_from(raw: RawDeviceConfig) -> (result: Result<DeviceConfig, DeviceConfigError>)
        ensures
            match result {
                Ok(device) => {
                    &&& forall|b: ButtonId| !#[trigger] misbound(raw.stated_bindings(), b)
                    &&& forall|b: ButtonId|
                        !#[trigger] misstashed(raw.device@.disabled_gestures, b)
                    &&& device@ == (DeviceModel {
                        bindings: raw.stated_bindings(),
                        identity: match raw.device@.identity {
                            Some(identity) => Some(identity.stripped()),
                            None => None,
                        },
                        ..raw.device@
                    })
                },
                Err(DeviceConfigError::InvalidTouchpadBinding(button)) => {
                    &&& misbound(raw.stated_bindings(), button)
                    &&& forall|b: ButtonId| #[trigger]
                        misbound(raw.stated_bindings(), b) ==> button.position() <= b.position()
                },
                Err(DeviceConfigError::InvalidDisabledTouchpadGesture(button)) => {
                    &&& forall|b: ButtonId| !#[trigger] misbound(raw.stated_bindings(), b)
                    &&& misstashed(raw.device@.disabled_gestures, button)
                    &&& forall|b: ButtonId| #[trigger]
                        misstashed(raw.device@.disabled_gestures, b) ==> button.position()
                            <= b.position()
                },
            },
    {
        let ghost stated = raw.stated_bindings();
        let mut device = raw.device;
        if !raw.gesture_bindings.is_empty() {
            let mut gestures: OrderedMap<ButtonId, Binding> = OrderedMap::new();
            let _ = gestures.insert(
                ButtonId::GestureButton,
                Binding::Gesture(raw.gesture_bindings),
            );
            device.bindings.absorb(gestures);
        }
        let mut buttons = raw.button_bindings;
        let _ = buttons.remove(&ButtonId::GestureButton);
        device.bindings.absorb(single_bindings(&buttons));
        assert(device.bindings@ == stated);
        if let Some(button) = first_misbound(&device.bindings) {
            return Err(DeviceConfigError::InvalidTouchpadBinding(button));
        }
        if let Some(button) = first_misstashed(&device.disabled_gestures) {
            return Err(DeviceConfigError::InvalidDisabledTouchpadGesture(button));
        }
        device.identity = match device.identity {
            Some(identity) => Some(identity.without_unit_identifiers()),
            None => None,
        };
        Ok(device)
    }
}

}
