//! Lights that follow the camera.

use vstd::prelude::*;

use crate::agent::devices::{AgentDevice, AgentDeviceModel};
use crate::config::settings::LightSettings;
use crate::config::{Config, ConfigModel};
use crate::device::{DeviceRoute, RouteModel};
use crate::ordered::{each, is_key_order, lemma_taken_one_more, OrderedMap, Replicate, Same};

verus! {

/// What lights follow: the camera, or what the user told them since it last went
/// on or off.
#[derive(Debug, PartialEq, Eq)]
pub struct LightAutomation {
    pub camera_active: bool,
    /// What the user told lights, by their key.
    pub manual_light_overrides: OrderedMap<String, bool>,
}

/// The model of a [`LightAutomation`].
#[verifier::ext_equal]
pub ghost struct AutomationModel {
    pub camera_active: bool,
    pub overrides: Map<Seq<char>, bool>,
}

impl View for LightAutomation {
    type V = AutomationModel;

    open spec fn view(&self) -> AutomationModel {
        AutomationModel {
            camera_active: self.camera_active,
            overrides: self.manual_light_overrides@,
        }
    }
}

/// Whether a light follows the camera.
pub open spec fn follows_camera(config: ConfigModel, key: Seq<char>) -> bool {
    config.device(key).light matches Some(light) && light.auto_camera
}

impl AutomationModel {
    /// Whether a light that follows the camera is on.
    pub open spec fn power(self, key: Seq<char>) -> bool {
        if self.overrides.contains_key(key) {
            self.overrides[key]
        } else {
            self.camera_active
        }
    }

    /// What a light is set to.
    pub open spec fn effective(self, config: ConfigModel, key: Seq<char>) -> Option<
        LightSettings,
    > {
        match config.device(key).light {
            Some(light) => if light.auto_camera {
                Some(LightSettings { enabled: self.power(key), ..light })
            } else {
                Some(light)
            },
            None => None,
        }
    }

    /// With the camera on or off.
    pub open spec fn with_camera(self, active: bool) -> AutomationModel {
        if active == self.camera_active {
            self
        } else {
            AutomationModel { camera_active: active, overrides: Map::empty() }
        }
    }

    /// With other settings: what the user told a light that no longer follows
    /// the camera is forgotten.
    pub open spec fn reloaded(self, config: ConfigModel) -> AutomationModel {
        AutomationModel {
            overrides: self.overrides.restrict(
                Set::new(|key: Seq<char>| follows_camera(config, key)),
            ),
            ..self
        }
    }
}

/// Whether a device is a light that can be switched.
pub open spec fn switchable(device: AgentDeviceModel) -> bool {
    device.light_capabilities matches Some(capabilities) && capabilities.power
}

/// The first light at the end of a route that can be switched and follows the
/// camera.
pub open spec fn switched(
    config: ConfigModel,
    devices: Seq<AgentDeviceModel>,
    route: RouteModel,
) -> Option<Seq<char>>
    decreases devices.len(),
{
    if devices.len() == 0 {
        None
    } else if devices[0].route == Some(route) && switchable(devices[0]) && follows_camera(
        config,
        devices[0].config_key,
    ) {
        Some(devices[0].config_key)
    } else {
        switched(config, devices.skip(1), route)
    }
}

impl Default for LightAutomation {
    fn default() -> (automation: Self)
        ensures
            automation@ == (AutomationModel { camera_active: false, overrides: Map::empty() }),
    {
        LightAutomation { camera_active: false, manual_light_overrides: OrderedMap::new() }
    }
}

fn is_following(config: &Config, key: &str) -> (yes: bool)
    ensures
        yes == follows_camera(config@, key@),
{
    match config.light(key) {
        Some(light) => light.auto_camera,
        None => false,
    }
}

impl LightAutomation {
    /// The camera went on or off.
    pub fn set_camera_active(&mut self, active: bool)
        ensures
            final(self)@ == old(self)@.with_camera(active),
    {
        if active != self.camera_active {
            self.camera_active = active;
            self.manual_light_overrides = OrderedMap::new();
        }
    }

    /// What a light is set to: only whether it is on follows the camera.
    pub fn effective_light_settings(&self, config: &Config, key: &str) -> (settings: Option<
        LightSettings,
    >)
        ensures
            settings == self@.effective(config@, key@),
    {
        match config.light(key) {
            Some(light) => {
                if light.auto_camera {
                    let enabled = match self.manual_light_overrides.get(key) {
                        Some(told) => *told,
                        None => self.camera_active,
                    };
                    Some(LightSettings { enabled, ..light })
                } else {
                    Some(light)
                }
            },
            None => None,
        }
    }

    /// The user switched a light: it stays so until the camera goes on or off.
    /// A light that does not follow the camera needs no such note.
    pub fn set_manual_light_power(
        &mut self,
        config: &Config,
        devices: &Vec<AgentDevice>,
        route: &DeviceRoute,
        enabled: bool,
    ) -> (noted: bool)
        ensures
            match switched(config@, each(devices@), route@) {
                Some(key) => noted && final(self)@ == (AutomationModel {
                    overrides: old(self)@.overrides.insert(key, enabled),
                    ..old(self)@
                }),
                None => !noted && final(self)@ == old(self)@,
            },
    {
        let ghost all = each(devices@);
        let mut i: usize = 0;
        assert(all.skip(0) =~= all);
        while i < devices.len()
            invariant
                all == each(devices@),
                i <= all.len(),
                self@ == old(self)@,
                switched(config@, all, route@) == switched(config@, all.skip(i as int), route@),
            decreases all.len() - i,
        {
            let device = &devices[i];
            proof {
                assert(all.skip(i as int)[0] == device@);
                assert(all.skip(i as int).skip(1) =~= all.skip(i + 1));
            }
            let here = match &device.route {
                Some(other) => other.same(route),
                None => false,
            };
            let can = match device.light_capabilities {
                Some(capabilities) => capabilities.power,
                None => false,
            };
            if here && can && is_following(config, device.config_key.as_str()) {
                let _ = self.manual_light_overrides.insert(device.config_key.replicate(), enabled);
                return true;
            }
            i += 1;
        }
        false
    }

    /// Other settings are in force.
    pub fn reload_config(&mut self, config: &Config)
        ensures
            final(self)@ == old(self)@.reloaded(config@),
    {
        let ghost told = self.manual_light_overrides@;
        let ghost order = self.manual_light_overrides.order();
        let n: usize = self.manual_light_overrides.len();
        let mut kept: OrderedMap<String, bool> = OrderedMap::new();
        let mut i: usize = 0;
        while i < n
            invariant
                n == order.len(),
                order == self.manual_light_overrides.order(),
                told == self.manual_light_overrides@,
                self@ == old(self)@,
                is_key_order::<String, bool>(order, told),
                i <= n,
                forall|key: Seq<char>| #[trigger]
                    kept@.contains_key(key) <==> order.take(i as int).contains(key)
                        && follows_camera(config@, key),
                forall|key: Seq<char>| #[trigger]
                    kept@.contains_key(key) ==> kept@[key] == told[key],
            decreases n - i,
        {
            let key = self.manual_light_overrides.key_at(i);
            proof {
                assert forall|k: Seq<char>| order.take(i + 1).contains(k) <==> order.take(
                    i as int,
                ).contains(k) || k == order[i as int] by {
                    lemma_taken_one_more(order, i as int, k);
                }
            }
            if is_following(config, key.as_str()) {
                let _ = kept.insert(key.replicate(), *self.manual_light_overrides.value_at(i));
            }
            i += 1;
        }
        proof {
            assert(order.take(i as int) =~= order);
            assert forall|key: Seq<char>| #[trigger] told.contains_key(key) implies order.contains(
                key,
            ) by {}
            assert forall|key: Seq<char>| #[trigger] order.contains(key) implies told.contains_key(
                key,
            ) by {
                assert(told.contains_key(order[order.index_of(key)]));
            }
            assert(kept@ =~= old(self)@.reloaded(config@).overrides);
        }
        self.manual_light_overrides = kept;
    }
}

/// What the user told a light lasts until the camera goes on or off, and then
/// the light follows the camera again.
pub proof fn law_an_override_lasts_until_the_camera_changes(
    automation: AutomationModel,
    key: Seq<char>,
    enabled: bool,
)
    ensures
        ({
            let told = AutomationModel {
                overrides: automation.overrides.insert(key, enabled),
                ..automation
            };
            &&& told.power(key) == enabled
            &&& told.with_camera(told.camera_active).power(key) == enabled
            &&& told.with_camera(!told.camera_active).power(key) == !told.camera_active
        }),
{
}

/// The camera decides only whether a light is on.
pub proof fn law_the_camera_decides_only_power(
    automation: AutomationModel,
    config: ConfigModel,
    key: Seq<char>,
)
    ensures
        match (automation.effective(config, key), config.device(key).light) {
            (Some(set), Some(light)) => set == (LightSettings { enabled: set.enabled, ..light }),
            (None, None) => true,
            _ => false,
        },
{
}

/// A light that follows the camera is on while the camera is, unless the user
/// said otherwise; any other is as it was set, and one without settings is left
/// alone.
pub proof fn law_a_light_follows_what_it_is_to(
    automation: AutomationModel,
    config: ConfigModel,
    key: Seq<char>,
)
    ensures
        match (config.device(key).light, automation.effective(config, key)) {
            (None, set) => set is None,
            (Some(light), Some(set)) => {
                &&& !light.auto_camera ==> set == light
                &&& light.auto_camera && !automation.overrides.contains_key(key) ==> set.enabled
                    == automation.camera_active
                &&& light.auto_camera && automation.overrides.contains_key(key) ==> set.enabled
                    == automation.overrides[key]
                &&& set.auto_camera == light.auto_camera
                &&& set.brightness_percent == light.brightness_percent
                &&& set.temperature_kelvin == light.temperature_kelvin
                &&& set.color == light.color
            },
            _ => false,
        },
{
}

/// The camera going on or off is remembered, and ends every word of the user's;
/// the camera staying as it is changes nothing. Other settings end what was said
/// of lights that no longer follow the camera, and nothing else.
pub proof fn law_what_ends_an_override(
    automation: AutomationModel,
    config: ConfigModel,
    active: bool,
    key: Seq<char>,
)
    ensures
        automation.with_camera(active).camera_active == active,
        active == automation.camera_active ==> automation.with_camera(active) == automation,
        active != automation.camera_active ==> !automation.with_camera(
            active,
        ).overrides.contains_key(key),
        automation.reloaded(config).camera_active == automation.camera_active,
        automation.reloaded(config).overrides.contains_key(key)
            <==> automation.overrides.contains_key(key) && config.device(key).light is Some
            && config.device(key).light.unwrap().auto_camera,
        automation.reloaded(config).overrides.contains_key(key) ==> automation.reloaded(
            config,
        ).overrides[key] == automation.overrides[key],
{
}

/// A light is noted as switched by hand only where it is at the end of that
/// route, can be switched, and follows the camera; where there is such a light,
/// one is.
pub proof fn law_the_light_that_is_switched(
    config: ConfigModel,
    devices: Seq<AgentDeviceModel>,
    route: RouteModel,
)
    ensures
        match switched(config, devices, route) {
            Some(key) => exists|i: int|
                0 <= i < devices.len() && (#[trigger] devices[i]).config_key == key
                    && is_switched_light(config, devices[i], route),
            None => forall|i: int|
                0 <= i < devices.len() ==> !is_switched_light(
                    config,
                    #[trigger] devices[i],
                    route,
                ),
        },
    decreases devices.len(),
{
    if devices.len() > 0 {
        let rest = devices.skip(1);
        law_the_light_that_is_switched(config, rest, route);
        if is_switched_light(config, devices[0], route) {
        } else if let Some(key) = switched(config, rest, route) {
            let i = choose|i: int|
                0 <= i < rest.len() && (#[trigger] rest[i]).config_key == key
                    && is_switched_light(config, rest[i], route);
            assert(devices[i + 1] == rest[i]);
        } else {
            assert forall|i: int| 0 <= i < devices.len() implies !is_switched_light(
                config,
                #[trigger] devices[i],
                route,
            ) by {
                if i > 0 {
                    assert(devices[i] == rest[i - 1]);
                }
            }
        }
    }
}

/// Whether a device is a light at the end of a route that can be switched and
/// follows the camera.
pub open spec fn is_switched_light(
    config: ConfigModel,
    device: AgentDeviceModel,
    route: RouteModel,
) -> bool {
    &&& device.route == Some(route)
    &&& device.light_capabilities is Some && device.light_capabilities.unwrap().power
    &&& config.device(device.config_key).light is Some && config.device(
        device.config_key,
    ).light.unwrap().auto_camera
}

}
