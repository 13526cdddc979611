//! What the bindings of a device come to, control by control.
//!
//! A control that nothing is stored for has its default. While an application is
//! in front, its profile comes first.

use vstd::prelude::*;

use crate::binding::action::{Action, ActionModel};
use crate::binding::button::{ButtonId, GestureDirection};
use crate::binding::shape::{default_binding_for, default_shape, Binding, BindingModel, DirectionMap};
use crate::config::device::DeviceModel;
use crate::config::Config;
use crate::ordered::{lemma_taken_one_more, OrderedMap, Replicate};

verus! {

/// The model of an optional text.
pub open spec fn opt_text(text: Option<&str>) -> Option<Seq<char>> {
    match text {
        Some(text) => Some(text@),
        None => None,
    }
}

impl DeviceModel {
    /// What a control has while `app` is in front, with its default.
    pub open spec fn bound(self, app: Option<Seq<char>>, button: ButtonId) -> BindingModel {
        let bindings = self.bindings_under(app);
        if bindings.contains_key(button) {
            bindings[button]
        } else {
            default_shape(button)
        }
    }

    /// What every control that is no touchpad trigger does when pressed.
    pub open spec fn button_bindings(self, app: Option<Seq<char>>) -> Map<ButtonId, BindingModel> {
        Map::new(
            |button: ButtonId| !button.touchpad(),
            |button: ButtonId| pressed(self.bound(app, button)),
        )
    }

    /// The directions of the controls that the mouse hook sees swipe.
    pub open spec fn hooked_gestures(self, app: Option<Seq<char>>) -> Map<
        ButtonId,
        Map<GestureDirection, ActionModel>,
    > {
        Map::new(
            |button: ButtonId| button.os_hook() && self.bound(app, button) is Gesture,
            |button: ButtonId| self.bound(app, button)->Gesture_0,
        )
    }

    /// The directions of the controls that the device itself reports swipes of.
    pub open spec fn reported_gestures(self) -> Map<ButtonId, Map<GestureDirection, ActionModel>> {
        Map::new(
            |button: ButtonId| button.hidpp_gesture_source() && self.gesture_mode(button),
            |button: ButtonId| self.binding_or_default(button)->Gesture_0,
        )
    }

    /// What every touchpad trigger does.
    pub open spec fn trigger_actions(self, app: Option<Seq<char>>) -> Map<ButtonId, ActionModel> {
        Map::new(
            |button: ButtonId| button.touchpad(),
            |button: ButtonId| self.bound(app, button).click(),
        )
    }
}

/// A binding as a plain press sees it: a direction map is its click.
pub open spec fn pressed(binding: BindingModel) -> BindingModel {
    match binding {
        BindingModel::Gesture(map) => BindingModel::Single(binding.click()),
        _ => binding,
    }
}

fn effective(
    bindings: &OrderedMap<ButtonId, Binding>,
    button: ButtonId,
) -> (binding: Binding)
    ensures
        binding@ == (if bindings@.contains_key(button) {
            bindings@[button]
        } else {
            default_shape(button)
        }),
{
    match bindings.get(&button) {
        Some(binding) => binding.replicate(),
        None => default_binding_for(button),
    }
}

proof fn lemma_every_button_is_listed(button: ButtonId)
    ensures
        ButtonId::ALL@.contains(button),
{
    assert(ButtonId::ALL@[button.position()] == button);
}

/// What every control that is no touchpad trigger does when pressed.
pub fn button_bindings_for(
    config: &Config,
    device_key: &str,
    app: Option<&str>,
) -> (bindings: OrderedMap<ButtonId, Binding>)
    ensures
        bindings@ == config@.device(device_key@).button_bindings(opt_text(app)),
{
    let ghost device = config@.device(device_key@);
    let ghost all = ButtonId::ALL@;
    let stored = config.effective_bindings(device_key, app);
    let mut bindings: OrderedMap<ButtonId, Binding> = OrderedMap::new();
    let mut i: usize = 0;
    while i < ButtonId::ALL.len()
        invariant
            all == ButtonId::ALL@,
            i <= all.len(),
            device == config@.device(device_key@),
            stored@ == device.bindings_under(opt_text(app)),
            forall|b: ButtonId| #[trigger]
                bindings@.contains_key(b) <==> all.take(i as int).contains(b) && !b.touchpad(),
            forall|b: ButtonId| #[trigger]
                bindings@.contains_key(b) ==> bindings@[b] == pressed(
                    device.bound(opt_text(app), b),
                ),
        decreases all.len() - i,
    {
        let button: ButtonId = ButtonId::ALL[i];
        if !button.is_touchpad_gesture() {
            let binding = effective(&stored, button);
            let binding = if binding.is_gesture() {
                Binding::Single(binding.click_action())
            } else {
                binding
            };
            let _ = bindings.insert(button, binding);
        }
        proof {
            assert forall|b: ButtonId| #[trigger]
                bindings@.contains_key(b) <==> all.take(i + 1).contains(b) && !b.touchpad() by {
                lemma_taken_one_more(all, i as int, b);
            }
        }
        i += 1;
    }
    proof {
        assert(all.take(i as int) =~= all);
        assert forall|b: ButtonId| #[trigger] bindings@.contains_key(b) <==> !b.touchpad() by {
            lemma_every_button_is_listed(b);
        }
        assert(bindings@ =~= device.button_bindings(opt_text(app)));
    }
    bindings
}

/// The directions of the controls that the mouse hook sees swipe.
pub fn oshook_gestures_for(
    config: &Config,
    device_key: &str,
    app: Option<&str>,
) -> (gestures: OrderedMap<ButtonId, DirectionMap>)
    ensures
        gestures@ == config@.device(device_key@).hooked_gestures(opt_text(app)),
{
    let ghost device = config@.device(device_key@);
    let ghost all = ButtonId::ALL@;
    let stored = config.effective_bindings(device_key, app);
    let mut gestures: OrderedMap<ButtonId, DirectionMap> = OrderedMap::new();
    let mut i: usize = 0;
    while i < ButtonId::ALL.len()
        invariant
            all == ButtonId::ALL@,
            i <= all.len(),
            device == config@.device(device_key@),
            stored@ == device.bindings_under(opt_text(app)),
            forall|b: ButtonId| #[trigger]
                gestures@.contains_key(b) <==> all.take(i as int).contains(b) && b.os_hook()
                    && device.bound(opt_text(app), b) is Gesture,
            forall|b: ButtonId| #[trigger]
                gestures@.contains_key(b) ==> gestures@[b] == device.bound(
                    opt_text(app),
                    b,
                )->Gesture_0,
        decreases all.len() - i,
    {
        let button: ButtonId = ButtonId::ALL[i];
        if button.is_os_hook_button() {
            if let Binding::Gesture(map) = effective(&stored, button) {
                let _ = gestures.insert(button, map);
            }
        }
        proof {
            assert forall|b: ButtonId| #[trigger]
                gestures@.contains_key(b) <==> all.take(i + 1).contains(b) && b.os_hook()
                    && device.bound(opt_text(app), b) is Gesture by {
                lemma_taken_one_more(all, i as int, b);
            }
        }
        i += 1;
    }
    proof {
        assert(all.take(i as int) =~= all);
        assert forall|b: ButtonId| #[trigger]
            gestures@.contains_key(b) <==> b.os_hook() && device.bound(
                opt_text(app),
                b,
            ) is Gesture by {
            lemma_every_button_is_listed(b);
        }
        assert(gestures@ =~= device.hooked_gestures(opt_text(app)));
    }
    gestures
}

/// The directions of the controls that the device itself reports swipes of.
pub fn hidpp_gesture_maps_for(config: &Config, device_key: &str) -> (gestures: OrderedMap<
    ButtonId,
    DirectionMap,
>)
    ensures
        gestures@ == config@.device(device_key@).reported_gestures(),
{
    let ghost device = config@.device(device_key@);
    let ghost all = ButtonId::ALL@;
    let stored = config.bindings_for(device_key);
    let mut gestures: OrderedMap<ButtonId, DirectionMap> = OrderedMap::new();
    let mut i: usize = 0;
    while i < ButtonId::ALL.len()
        invariant
            all == ButtonId::ALL@,
            i <= all.len(),
            device == config@.device(device_key@),
            stored@ == device.bindings,
            forall|b: ButtonId| #[trigger]
                gestures@.contains_key(b) <==> all.take(i as int).contains(b)
                    && b.hidpp_gesture_source() && device.gesture_mode(b),
            forall|b: ButtonId| #[trigger]
                gestures@.contains_key(b) ==> gestures@[b] == device.binding_or_default(
                    b,
                )->Gesture_0,
        decreases all.len() - i,
    {
        let button: ButtonId = ButtonId::ALL[i];
        if button.is_hidpp_gesture_source() {
            if let Binding::Gesture(map) = effective(&stored, button) {
                let _ = gestures.insert(button, map);
            }
        }
        proof {
            assert forall|b: ButtonId| #[trigger]
                gestures@.contains_key(b) <==> all.take(i + 1).contains(b)
                    && b.hidpp_gesture_source() && device.gesture_mode(b) by {
                lemma_taken_one_more(all, i as int, b);
            }
        }
        i += 1;
    }
    proof {
        assert(all.take(i as int) =~= all);
        assert forall|b: ButtonId| #[trigger]
            gestures@.contains_key(b) <==> b.hidpp_gesture_source() && device.gesture_mode(b) by {
            lemma_every_button_is_listed(b);
        }
        assert(gestures@ =~= device.reported_gestures());
    }
    gestures
}

/// What every touchpad trigger does.
pub fn touchpad_bindings_for(
    config: &Config,
    device_key: &str,
    app: Option<&str>,
) -> (actions: OrderedMap<ButtonId, Action>)
    ensures
        actions@ == config@.device(device_key@).trigger_actions(opt_text(app)),
{
    let ghost device = config@.device(device_key@);
    let ghost all = ButtonId::ALL@;
    let stored = config.effective_bindings(device_key, app);
    let mut actions: OrderedMap<ButtonId, Action> = OrderedMap::new();
    let mut i: usize = 0;
    while i < ButtonId::ALL.len()
        invariant
            all == ButtonId::ALL@,
            i <= all.len(),
            device == config@.device(device_key@),
            stored@ == device.bindings_under(opt_text(app)),
            forall|b: ButtonId| #[trigger]
                actions@.contains_key(b) <==> all.take(i as int).contains(b) && b.touchpad(),
            forall|b: ButtonId| #[trigger]
                actions@.contains_key(b) ==> actions@[b] == device.bound(opt_text(app), b).click(),
        decreases all.len() - i,
    {
        let button: ButtonId = ButtonId::ALL[i];
        if button.is_touchpad_gesture() {
            let _ = actions.insert(button, effective(&stored, button).click_action());
        }
        proof {
            assert forall|b: ButtonId| #[trigger]
                actions@.contains_key(b) <==> all.take(i + 1).contains(b) && b.touchpad() by {
                lemma_taken_one_more(all, i as int, b);
            }
        }
        i += 1;
    }
    proof {
        assert(all.take(i as int) =~= all);
        assert forall|b: ButtonId| #[trigger] actions@.contains_key(b) <==> b.touchpad() by {
            lemma_every_button_is_listed(b);
        }
        assert(actions@ =~= device.trigger_actions(opt_text(app)));
    }
    actions
}

}
