//! What is captured from each device, and what its events do.
//!
//! A plan holds everything that one device's capture session needs, so an event
//! is always resolved against the device it came from.

use vstd::prelude::*;
use vstd::string::StrSliceExecFns;

use crate::agent::bindings::{
    button_bindings_for, hidpp_gesture_maps_for, opt_text, oshook_gestures_for, pressed,
    touchpad_bindings_for,
};
use crate::binding::action::{Action, ActionModel};
use crate::binding::button::{ButtonId, GestureDirection};
use crate::binding::shape::{
    default_action, default_binding, default_directions, default_gesture, Binding, BindingModel,
    DirectionMap,
};
use crate::config::device::DeviceModel;
use crate::config::settings::ThumbwheelSensitivity;
use crate::config::{file_name, is_executable, Config, ConfigModel};
use crate::device::{DeviceRoute, RouteModel};
use crate::ordered::{lemma_filter_holds, opt, OrderedMap, Same};
use crate::text::small_letters;

verus! {

/// The control of the gesture button.
pub const GESTURE_BUTTON_CID: u16 = 0x00c3;

/// The control of the haptic panel.
pub const HAPTIC_PANEL_CID: u16 = 0x01a0;

/// How a capture session goes about its device.
#[derive(Clone, Copy, Debug, PartialEq, Eq, Structural)]
pub enum CaptureSessionMode {
    /// Capture until told to stop.
    Continuous,
    /// Put a touchpad back that an earlier session left in raw mode, and stop.
    TouchpadRecovery,
    /// Capture the touchpad alone.
    TouchpadOnly,
}

/// Everything that one device's capture session needs.
#[derive(Debug, PartialEq, Eq)]
pub struct DeviceCapturePlan {
    /// The key the device's settings are kept under.
    pub config_key: String,
    /// How the device is reached.
    pub route: DeviceRoute,
    /// How the session goes about it.
    pub session_mode: CaptureSessionMode,
    /// What each control does when pressed.
    pub bindings: OrderedMap<ButtonId, Binding>,
    /// The directions of the controls whose swipes the device reports.
    pub gesture_bindings: OrderedMap<ButtonId, DirectionMap>,
    /// The controls to divert.
    pub divert_buttons: Vec<(u16, ButtonId)>,
    /// Whether the thumb wheel does anything but its default.
    pub thumbwheel_bindings_nondefault: bool,
    /// How much a turn of the thumb wheel counts.
    pub thumbwheel_sensitivity: ThumbwheelSensitivity,
    /// What each touchpad trigger does.
    pub touchpad_bindings: OrderedMap<ButtonId, Action>,
    /// What the device is known by in the record of raw modes.
    pub touchpad_journal_id: Option<String>,
    /// Whether the touchpad is to be captured.
    pub capture_touchpad: bool,
    /// Changes whenever a session has to start over.
    pub rearm_generation: u64,
}

/// The model of a [`DeviceCapturePlan`].
#[verifier::ext_equal]
pub ghost struct PlanModel {
    pub config_key: Seq<char>,
    pub route: RouteModel,
    pub session_mode: CaptureSessionMode,
    pub bindings: Map<ButtonId, BindingModel>,
    pub gesture_bindings: Map<ButtonId, Map<GestureDirection, ActionModel>>,
    pub divert_buttons: Seq<(u16, ButtonId)>,
    pub thumbwheel_bindings_nondefault: bool,
    pub thumbwheel_sensitivity: ThumbwheelSensitivity,
    pub touchpad_bindings: Map<ButtonId, ActionModel>,
    pub touchpad_journal_id: Option<Seq<char>>,
    pub capture_touchpad: bool,
    pub rearm_generation: u64,
}

impl View for DeviceCapturePlan {
    type V = PlanModel;

    open spec fn view(&self) -> PlanModel {
        PlanModel {
            config_key: self.config_key@,
            route: self.route@,
            session_mode: self.session_mode,
            bindings: self.bindings@,
            gesture_bindings: self.gesture_bindings@,
            divert_buttons: self.divert_buttons@,
            thumbwheel_bindings_nondefault: self.thumbwheel_bindings_nondefault,
            thumbwheel_sensitivity: self.thumbwheel_sensitivity,
            touchpad_bindings: self.touchpad_bindings@,
            touchpad_journal_id: opt(self.touchpad_journal_id),
            capture_touchpad: self.capture_touchpad,
            rearm_generation: self.rearm_generation,
        }
    }
}

/// Ordinary buttons that can be diverted, with their controls.
pub open spec fn divertable() -> Seq<(u16, ButtonId)> {
    seq![
        (0x0052u16, ButtonId::MiddleClick),
        (0x0053u16, ButtonId::Back),
        (0x0056u16, ButtonId::Forward),
        (0x005bu16, ButtonId::WheelTiltLeft),
        (0x005du16, ButtonId::WheelTiltRight),
    ]
}

/// Buttons whose swipes the device reports, with their controls.
pub open spec fn gesture_sources() -> Seq<(u16, ButtonId)> {
    seq![
        (GESTURE_BUTTON_CID, ButtonId::GestureButton),
        (HAPTIC_PANEL_CID, ButtonId::HapticPanel),
    ]
}

/// Ordinary buttons that can be diverted, with their controls.
pub fn divertable_standard_buttons() -> (buttons: [(u16, ButtonId); 5])
    ensures
        buttons@ == divertable(),
{
    let buttons = [
        (0x0052u16, ButtonId::MiddleClick),
        (0x0053u16, ButtonId::Back),
        (0x0056u16, ButtonId::Forward),
        (0x005bu16, ButtonId::WheelTiltLeft),
        (0x005du16, ButtonId::WheelTiltRight),
    ];
    assert(buttons@ =~= divertable());
    buttons
}

/// Buttons whose swipes the device reports, with their controls.
pub fn gesture_source_buttons() -> (buttons: [(u16, ButtonId); 2])
    ensures
        buttons@ == gesture_sources(),
{
    let buttons = [
        (GESTURE_BUTTON_CID, ButtonId::GestureButton),
        (HAPTIC_PANEL_CID, ButtonId::HapticPanel),
    ];
    assert(buttons@ =~= gesture_sources());
    buttons
}

impl DeviceModel {
    /// Whether a button has to be diverted to do what it is bound to.
    ///
    /// One that swipes is left to whoever sees the swipe. One at its default is
    /// left to the device, but for the haptic panel, whose default the device
    /// does not know, and which is left alone only where it does nothing.
    pub open spec fn diverts(self, app: Option<Seq<char>>, button: ButtonId) -> bool {
        let binding = pressed(self.bound(app, button));
        &&& !self.reported_gestures().contains_key(button)
        &&& !self.hooked_gestures(app).contains_key(button)
        &&& binding is LongPress || (if button is HapticPanel {
            binding.click() != ActionModel::Plain(Action::DoNothing)
        } else {
            binding.click() != default_action(button)@
        })
    }

    /// Whether a button does anything but its default.
    pub open spec fn rebound(self, app: Option<Seq<char>>, button: ButtonId) -> bool {
        pressed(self.bound(app, button)).click() != default_action(button)@
    }
}

/// Which controls of a device have to be diverted.
pub open spec fn to_divert(device: DeviceModel, app: Option<Seq<char>>) -> spec_fn(
    (u16, ButtonId),
) -> bool {
    |control: (u16, ButtonId)| device.diverts(app, control.1)
}

impl PlanModel {
    /// The plan of a device.
    pub open spec fn of(
        config: ConfigModel,
        config_key: Seq<char>,
        route: RouteModel,
        app: Option<Seq<char>>,
        touchpad_journal_id: Option<Seq<char>>,
        rearm_generation: u64,
    ) -> PlanModel {
        let device = config.device(config_key);
        PlanModel {
            config_key,
            route,
            session_mode: CaptureSessionMode::Continuous,
            bindings: device.button_bindings(app),
            gesture_bindings: device.reported_gestures(),
            divert_buttons: divertable().filter(to_divert(device, app)) + gesture_sources().filter(
                to_divert(device, app),
            ),
            thumbwheel_bindings_nondefault: device.rebound(app, ButtonId::Thumbwheel)
                || device.rebound(app, ButtonId::ThumbwheelScrollUp) || device.rebound(
                app,
                ButtonId::ThumbwheelScrollDown,
            ),
            thumbwheel_sensitivity: match device.thumbwheel_sensitivity {
                Some(own) => own,
                None => config.app_settings.thumbwheel_sensitivity,
            },
            touchpad_bindings: device.trigger_actions(app),
            touchpad_journal_id,
            capture_touchpad: device.touchpad_gestures && touchpad_journal_id is Some,
            rearm_generation,
        }
    }

    /// The plan that only puts a touchpad back.
    pub open spec fn recovery(
        config_key: Seq<char>,
        route: RouteModel,
        touchpad_journal_id: Seq<char>,
        rearm_generation: u64,
    ) -> PlanModel {
        PlanModel {
            config_key,
            route,
            session_mode: CaptureSessionMode::TouchpadRecovery,
            bindings: Map::empty(),
            gesture_bindings: Map::empty(),
            divert_buttons: Seq::empty(),
            thumbwheel_bindings_nondefault: false,
            thumbwheel_sensitivity: ThumbwheelSensitivity::native(),
            touchpad_bindings: Map::empty(),
            touchpad_journal_id: Some(touchpad_journal_id),
            capture_touchpad: false,
            rearm_generation,
        }
    }
}

/// What a button needs to be looked at for diversion.
struct Bound<'a> {
    bindings: &'a OrderedMap<ButtonId, Binding>,
    reported: &'a OrderedMap<ButtonId, DirectionMap>,
    hooked: &'a OrderedMap<ButtonId, DirectionMap>,
}

impl<'a> Bound<'a> {
    spec fn is_of(&self, device: DeviceModel, app: Option<Seq<char>>) -> bool {
        &&& self.bindings@ == device.button_bindings(app)
        &&& self.reported@ == device.reported_gestures()
        &&& self.hooked@ == device.hooked_gestures(app)
    }

    fn rebound(
        &self,
        button: ButtonId,
        Ghost(device): Ghost<DeviceModel>,
        Ghost(app): Ghost<Option<Seq<char>>>,
    ) -> (yes: bool)
        requires
            self.is_of(device, app),
            !button.touchpad(),
        ensures
            yes == device.rebound(app, button),
    {
        match self.bindings.get(&button) {
            Some(binding) => !binding.click_action().same(&default_binding(button)),
            None => false,
        }
    }

    fn diverts(
        &self,
        button: ButtonId,
        Ghost(device): Ghost<DeviceModel>,
        Ghost(app): Ghost<Option<Seq<char>>>,
    ) -> (yes: bool)
        requires
            self.is_of(device, app),
            !button.touchpad(),
        ensures
            yes == device.diverts(app, button),
    {
        if self.reported.contains_key(&button) || self.hooked.contains_key(&button) {
            return false;
        }
        match self.bindings.get(&button) {
            Some(Binding::LongPress(_)) => true,
            Some(binding) => {
                let action = binding.click_action();
                if button == ButtonId::HapticPanel {
                    !action.same(&Action::DoNothing)
                } else {
                    !action.same(&default_binding(button))
                }
            },
            None => false,
        }
    }
}

/// The plan of a device without a touchpad to capture.
pub fn plan_for_device(
    config: &Config,
    config_key: &str,
    route: DeviceRoute,
    app: Option<&str>,
    rearm_generation: u64,
) -> (plan: DeviceCapturePlan)
    ensures
        plan@ == PlanModel::of(
            config@,
            config_key@,
            route@,
            opt_text(app),
            None,
            rearm_generation,
        ),
{
    plan_for_device_with_touchpad(config, config_key, route, app, None, rearm_generation)
}

/// The plan of a device, whose touchpad may be captured where the device is
/// known from one run to the next.
pub fn plan_for_device_with_touchpad(
    config: &Config,
    config_key: &str,
    route: DeviceRoute,
    app: Option<&str>,
    touchpad_journal_id: Option<String>,
    rearm_generation: u64,
) -> (plan: DeviceCapturePlan)
    ensures
        plan@ == PlanModel::of(
            config@,
            config_key@,
            route@,
            opt_text(app),
            opt(touchpad_journal_id),
            rearm_generation,
        ),
{
    let ghost device = config@.device(config_key@);
    let ghost in_front = opt_text(app);
    let bindings = button_bindings_for(config, config_key, app);
    let hooked = oshook_gestures_for(config, config_key, app);
    let gesture_bindings = hidpp_gesture_maps_for(config, config_key);
    let bound = Bound { bindings: &bindings, reported: &gesture_bindings, hooked: &hooked };
    let standard = divertable_standard_buttons();
    let sources = gesture_source_buttons();
    let ghost pred = to_divert(device, in_front);
    let mut divert_buttons: Vec<(u16, ButtonId)> = Vec::new();
    let mut i: usize = 0;
    proof {
        reveal(Seq::filter);
        assert(divertable().take(0).filter(pred) =~= Seq::<(u16, ButtonId)>::empty());
    }
    while i < standard.len()
        invariant
            standard@ == divertable(),
            i <= standard@.len(),
            bound.is_of(device, in_front),
            pred == to_divert(device, in_front),
            divert_buttons@ == divertable().take(i as int).filter(pred),
        decreases standard@.len() - i,
    {
        let control = standard[i];
        assert(control == divertable()[i as int]);
        if bound.diverts(control.1, Ghost(device), Ghost(in_front)) {
            divert_buttons.push(control);
        }
        proof {
            reveal(Seq::filter);
            assert(divertable().take(i + 1).drop_last() =~= divertable().take(i as int));
            assert(divertable().take(i + 1).last() == control);
        }
        i += 1;
    }
    let ghost first = divert_buttons@;
    proof {
        assert(divertable().take(i as int) =~= divertable());
        reveal(Seq::filter);
        assert(gesture_sources().take(0).filter(pred) =~= Seq::<(u16, ButtonId)>::empty());
    }
    let mut i: usize = 0;
    while i < sources.len()
        invariant
            sources@ == gesture_sources(),
            i <= sources@.len(),
            bound.is_of(device, in_front),
            pred == to_divert(device, in_front),
            divert_buttons@ == first + gesture_sources().take(i as int).filter(pred),
        decreases sources@.len() - i,
    {
        let control = sources[i];
        assert(control == gesture_sources()[i as int]);
        let ghost before = divert_buttons@;
        if bound.diverts(control.1, Ghost(device), Ghost(in_front)) {
            divert_buttons.push(control);
        }
        proof {
            reveal(Seq::filter);
            assert(gesture_sources().take(i + 1).drop_last() =~= gesture_sources().take(i as int));
            assert(gesture_sources().take(i + 1).last() == control);
            assert(divert_buttons@ =~= first + gesture_sources().take(i + 1).filter(pred));
        }
        i += 1;
    }
    assert(gesture_sources().take(i as int) =~= gesture_sources());
    let thumbwheel_bindings_nondefault: bool = bound.rebound(
        ButtonId::Thumbwheel,
        Ghost(device),
        Ghost(in_front),
    ) || bound.rebound(ButtonId::ThumbwheelScrollUp, Ghost(device), Ghost(in_front))
        || bound.rebound(ButtonId::ThumbwheelScrollDown, Ghost(device), Ghost(in_front));
    let capture_touchpad: bool = config.touchpad_gestures_enabled(config_key)
        && touchpad_journal_id.is_some();
    DeviceCapturePlan {
        config_key: config_key.to_owned(),
        route,
        session_mode: CaptureSessionMode::Continuous,
        bindings,
        gesture_bindings,
        divert_buttons,
        thumbwheel_bindings_nondefault,
        thumbwheel_sensitivity: config.thumbwheel_sensitivity(config_key),
        touchpad_bindings: touchpad_bindings_for(config, config_key, app),
        touchpad_journal_id,
        capture_touchpad,
        rearm_generation,
    }
}

/// The plan that only puts a touchpad back that was left in raw mode.
pub fn touchpad_recovery_plan(
    config_key: &str,
    route: DeviceRoute,
    touchpad_journal_id: String,
    rearm_generation: u64,
) -> (plan: DeviceCapturePlan)
    ensures
        plan@ == PlanModel::recovery(
            config_key@,
            route@,
            touchpad_journal_id@,
            rearm_generation,
        ),
{
    DeviceCapturePlan {
        config_key: config_key.to_owned(),
        route,
        session_mode: CaptureSessionMode::TouchpadRecovery,
        bindings: OrderedMap::new(),
        gesture_bindings: OrderedMap::new(),
        divert_buttons: Vec::new(),
        thumbwheel_bindings_nondefault: false,
        thumbwheel_sensitivity: ThumbwheelSensitivity::default(),
        touchpad_bindings: OrderedMap::new(),
        touchpad_journal_id: Some(touchpad_journal_id),
        capture_touchpad: false,
        rearm_generation,
    }
}

/// A control whose swipes the device reports is never diverted plainly as well,
/// and neither is one whose swipes the mouse hook sees.
pub proof fn law_a_swiping_control_is_never_plainly_diverted(
    config: ConfigModel,
    config_key: Seq<char>,
    route: RouteModel,
    app: Option<Seq<char>>,
    journal: Option<Seq<char>>,
    generation: u64,
    i: int,
)
    requires
        0 <= i < PlanModel::of(config, config_key, route, app, journal, generation)
            .divert_buttons.len(),
    ensures
        ({
            let plan = PlanModel::of(config, config_key, route, app, journal, generation);
            let control = plan.divert_buttons[i];
            &&& !plan.gesture_bindings.contains_key(control.1)
            &&& !config.device(config_key).hooked_gestures(app).contains_key(control.1)
            &&& config.device(config_key).diverts(app, control.1)
        }),
{
    let device = config.device(config_key);
    let plan = PlanModel::of(config, config_key, route, app, journal, generation);
    let pred = to_divert(device, app);
    let first = divertable().filter(pred);
    let second = gesture_sources().filter(pred);
    broadcast use vstd::seq_lib::group_filter_ensures;

    let control = plan.divert_buttons[i];
    if i < first.len() {
        assert(first[i] == control);
        assert(pred(first[i]));
    } else {
        assert(second[i - first.len()] == control);
        assert(pred(second[i - first.len()]));
    }
}

/// A touchpad is captured only where the user asked for it and the device can be
/// put back after an interruption.
pub proof fn law_touchpad_capture_is_asked_for_and_recoverable(
    config: ConfigModel,
    config_key: Seq<char>,
    route: RouteModel,
    app: Option<Seq<char>>,
    journal: Option<Seq<char>>,
    generation: u64,
)
    ensures
        PlanModel::of(config, config_key, route, app, journal, generation).capture_touchpad
            <==> config.device(config_key).touchpad_gestures && journal is Some,
        !config.devices.contains_key(config_key) ==> !PlanModel::of(
            config,
            config_key,
            route,
            app,
            journal,
            generation,
        ).capture_touchpad,
{
}

/// What the profile of the application in front sets a control to, if it does.
/// A profile is that of the application itself, else that of its executable.
pub open spec fn set_in_front(
    device: DeviceModel,
    app: Option<Seq<char>>,
    button: ButtonId,
) -> Option<ActionModel> {
    match app {
        None => None,
        Some(app) => {
            let executable = "exe:"@ + small_letters(file_name(app));
            if device.per_app_bindings.contains_key(app) {
                if device.per_app_bindings[app].contains_key(button) {
                    Some(device.per_app_bindings[app][button])
                } else {
                    None
                }
            } else if is_executable(file_name(app)) && device.per_app_bindings.contains_key(
                executable,
            ) && device.per_app_bindings[executable].contains_key(button) {
                Some(device.per_app_bindings[executable][button])
            } else {
                None
            }
        },
    }
}

/// A plan binds each control to what the profile of the application in front
/// sets it to, else to what is stored for the device, else to its default. A
/// direction map counts by its click. Touchpad triggers are bound likewise, and
/// apart from the controls.
pub proof fn law_the_plan_binds_what_holds_in_front(
    config: ConfigModel,
    config_key: Seq<char>,
    route: RouteModel,
    app: Option<Seq<char>>,
    journal: Option<Seq<char>>,
    generation: u64,
    button: ButtonId,
)
    ensures
        ({
            let device = config.device(config_key);
            let plan = PlanModel::of(config, config_key, route, app, journal, generation);
            &&& plan.bindings.contains_key(button) <==> !button.touchpad()
            &&& plan.touchpad_bindings.contains_key(button) <==> button.touchpad()
            &&& set_in_front(device, app, button) matches Some(action) ==> {
                &&& !button.touchpad() ==> plan.bindings[button] == BindingModel::Single(action)
                &&& button.touchpad() ==> plan.touchpad_bindings[button] == action
            }
            &&& set_in_front(device, app, button) is None && device.bindings.contains_key(button)
                ==> {
                &&& !button.touchpad() && !(device.bindings[button] is Gesture)
                    ==> plan.bindings[button] == device.bindings[button]
                &&& !button.touchpad() && device.bindings[button] is Gesture
                    ==> plan.bindings[button] == BindingModel::Single(
                    device.bindings[button].click(),
                )
                &&& button.touchpad() ==> plan.touchpad_bindings[button]
                    == device.bindings[button].click()
            }
            &&& set_in_front(device, app, button) is None && !device.bindings.contains_key(button)
                ==> {
                &&& !button.touchpad() && !(button is GestureButton) ==> plan.bindings[button]
                    == BindingModel::Single(default_action(button)@)
                &&& button is GestureButton ==> plan.bindings[button] == BindingModel::Single(
                    default_gesture(GestureDirection::Click)@,
                )
                &&& button.touchpad() ==> plan.touchpad_bindings[button] == default_action(
                    button,
                )@
            }
        }),
{
}

/// A button that is set for an application does that in the plan while the
/// application is in front, for every device and however the plan is asked for;
/// with no application in front nothing has changed.
pub proof fn law_a_button_set_for_an_application_is_so_in_its_plan(
    config: ConfigModel,
    config_key: Seq<char>,
    route: RouteModel,
    app: Seq<char>,
    journal: Option<Seq<char>>,
    generation: u64,
    button: ButtonId,
    action: ActionModel,
)
    ensures
        ({
            let device = config.device(config_key);
            let after = config.with_device(
                config_key,
                device.with_app_binding(app, button, Some(action)),
            );
            let plan = PlanModel::of(after, config_key, route, Some(app), journal, generation);
            let behind = PlanModel::of(after, config_key, route, None, journal, generation);
            &&& !button.touchpad() ==> plan.bindings[button] == BindingModel::Single(action)
            &&& button.touchpad() ==> plan.touchpad_bindings[button] == action
            &&& behind == PlanModel::of(config, config_key, route, None, journal, generation)
        }),
{
    let device = config.device(config_key);
    let set = device.with_app_binding(app, button, Some(action));
    let profile = if device.per_app_bindings.contains_key(app) {
        device.per_app_bindings[app]
    } else {
        Map::empty()
    };
    assert(profile.insert(button, action).contains_key(button));
    assert(profile.insert(button, action) != Map::<ButtonId, ActionModel>::empty());
    assert(set.per_app_bindings.contains_key(app));
    let after = config.with_device(config_key, set);
    law_the_plan_binds_what_holds_in_front(
        after,
        config_key,
        route,
        Some(app),
        journal,
        generation,
        button,
    );
    assert(after.device(config_key) == set);
    assert(set.button_bindings(None) =~= device.button_bindings(None));
    assert(set.trigger_actions(None) =~= device.trigger_actions(None));
    assert(set.reported_gestures() =~= device.reported_gestures());
    assert(set.hooked_gestures(None) =~= device.hooked_gestures(None));
    let ours = to_divert(set, None);
    let theirs = to_divert(device, None);
    assert forall|control: (u16, ButtonId)| #[trigger] ours(control) == theirs(control) by {
        assert(set.bound(None, control.1) == device.bound(None, control.1));
    }
    assert(ours =~= theirs);
}

/// The number of a control in the device's own terms.
pub open spec fn control_number(button: ButtonId) -> Option<u16> {
    match button {
        ButtonId::MiddleClick => Some(82),
        ButtonId::Back => Some(83),
        ButtonId::Forward => Some(86),
        ButtonId::WheelTiltLeft => Some(91),
        ButtonId::WheelTiltRight => Some(93),
        ButtonId::GestureButton => Some(195),
        ButtonId::HapticPanel => Some(416),
        _ => None,
    }
}

/// A control is diverted if and only if the device cannot do by itself what the
/// plan binds it to: a long press, or anything but what it does by default; the
/// haptic panel does nothing by itself. One that swipes is left to whoever sees
/// its swipes: the device for those it reports, the mouse hook for those it
/// sees, unless the application in front sets the button to an action.
pub proof fn law_what_is_diverted_is_what_the_device_cannot_do(
    config: ConfigModel,
    config_key: Seq<char>,
    route: RouteModel,
    app: Option<Seq<char>>,
    journal: Option<Seq<char>>,
    generation: u64,
    number: u16,
    button: ButtonId,
)
    ensures
        ({
            let device = config.device(config_key);
            let plan = PlanModel::of(config, config_key, route, app, journal, generation);
            let swipes = device.gesture_mode(button);
            &&& plan.divert_buttons.contains((number, button)) <==> {
                &&& control_number(button) == Some(number)
                &&& !plan.gesture_bindings.contains_key(button)
                &&& !(button.os_hook() && swipes && set_in_front(device, app, button) is None)
                &&& {
                    ||| plan.bindings[button] is LongPress
                    ||| button is HapticPanel && !(plan.bindings[button].click().effect()
                        is Nothing)
                    ||| !(button is HapticPanel) && plan.bindings[button].click()
                        != default_action(button)@
                }
            }
            &&& plan.gesture_bindings.contains_key(button) <==> (button is GestureButton
                || button is HapticPanel) && swipes
            &&& plan.gesture_bindings.contains_key(button) && device.bindings.contains_key(button)
                ==> device.bindings[button] == BindingModel::Gesture(plan.gesture_bindings[button])
            &&& plan.gesture_bindings.contains_key(button) && !device.bindings.contains_key(button)
                ==> plan.gesture_bindings[button] == default_directions()
        }),
{
    let device = config.device(config_key);
    let plan = PlanModel::of(config, config_key, route, app, journal, generation);
    let pred = to_divert(device, app);
    law_the_plan_binds_what_holds_in_front(
        config,
        config_key,
        route,
        app,
        journal,
        generation,
        button,
    );
    let control = (number, button);
    let first = divertable().filter(pred);
    let second = gesture_sources().filter(pred);
    lemma_filter_holds(divertable(), pred, control);
    lemma_filter_holds(gesture_sources(), pred, control);
    assert(plan.divert_buttons.contains(control) <==> first.contains(control)
        || second.contains(control)) by {
        if first.contains(control) {
            assert(plan.divert_buttons[first.index_of(control)] == control);
        }
        if second.contains(control) {
            assert(plan.divert_buttons[first.len() + second.index_of(control)] == control);
        }
        if plan.divert_buttons.contains(control) {
            let i = plan.divert_buttons.index_of(control);
            if i < first.len() {
                assert(first[i] == control);
            } else {
                assert(second[i - first.len()] == control);
            }
        }
    }
    assert(divertable().contains(control) || gesture_sources().contains(control) <==>
        control_number(button) == Some(number)) by {
        assert(divertable()[0] == (82u16, ButtonId::MiddleClick));
        assert(divertable()[1] == (83u16, ButtonId::Back));
        assert(divertable()[2] == (86u16, ButtonId::Forward));
        assert(divertable()[3] == (91u16, ButtonId::WheelTiltLeft));
        assert(divertable()[4] == (93u16, ButtonId::WheelTiltRight));
        assert(gesture_sources()[0] == (195u16, ButtonId::GestureButton));
        assert(gesture_sources()[1] == (416u16, ButtonId::HapticPanel));
    }
}

/// The thumb wheel is captured as soon as it, or one of its directions, does
/// anything but its default; it is as sensitive as the user set it for the
/// device, else as for every device. A plan is for the device and the route it
/// was asked for, and goes on until it is told to stop.
pub proof fn law_the_rest_of_a_plan(
    config: ConfigModel,
    config_key: Seq<char>,
    route: RouteModel,
    app: Option<Seq<char>>,
    journal: Option<Seq<char>>,
    generation: u64,
)
    ensures
        ({
            let device = config.device(config_key);
            let plan = PlanModel::of(config, config_key, route, app, journal, generation);
            let rebound = |button: ButtonId|
                plan.bindings[button].click() != default_action(button)@;
            &&& plan.thumbwheel_bindings_nondefault <==> rebound(ButtonId::Thumbwheel) || rebound(
                ButtonId::ThumbwheelScrollUp,
            ) || rebound(ButtonId::ThumbwheelScrollDown)
            &&& device.thumbwheel_sensitivity matches Some(own) ==> plan.thumbwheel_sensitivity
                == own
            &&& device.thumbwheel_sensitivity is None ==> plan.thumbwheel_sensitivity
                == config.app_settings.thumbwheel_sensitivity
            &&& plan.config_key == config_key
            &&& plan.route == route
            &&& plan.touchpad_journal_id == journal
            &&& plan.rearm_generation == generation
            &&& plan.session_mode is Continuous
        }),
{
}

/// A plan that puts a touchpad back captures nothing, and names the touchpad.
pub proof fn law_a_recovery_captures_nothing(
    config_key: Seq<char>,
    route: RouteModel,
    journal: Seq<char>,
    generation: u64,
    button: ButtonId,
)
    ensures
        ({
            let plan = PlanModel::recovery(config_key, route, journal, generation);
            &&& plan.session_mode is TouchpadRecovery
            &&& !plan.capture_touchpad
            &&& plan.divert_buttons.len() == 0
            &&& !plan.bindings.contains_key(button)
            &&& !plan.gesture_bindings.contains_key(button)
            &&& !plan.touchpad_bindings.contains_key(button)
            &&& !plan.thumbwheel_bindings_nondefault
            &&& plan.touchpad_journal_id == Some(journal)
            &&& plan.config_key == config_key
            &&& plan.route == route
            &&& plan.rearm_generation == generation
        }),
{
}

/// The mouse hook follows the swipes of a control while an application is in
/// front just where the hook sees the control, the device's own binding of it is
/// a direction map, and the application's profile sets it to nothing else; and
/// the directions are those of the device's binding. What a control does when
/// pressed, and what a touchpad trigger does, is what holds in front.
pub proof fn law_the_hook_follows_what_holds_in_front(
    device: DeviceModel,
    app: Option<Seq<char>>,
    button: ButtonId,
)
    ensures
        device.hooked_gestures(app).contains_key(button) <==> {
            &&& button is MiddleClick || button is Back || button is Forward
            &&& device.bindings.contains_key(button) && device.bindings[button] is Gesture
            &&& set_in_front(device, app, button) is None
        },
        device.hooked_gestures(app).contains_key(button) ==> device.bindings[button]
            == BindingModel::Gesture(device.hooked_gestures(app)[button]),
        device.reported_gestures().contains_key(button) <==> {
            &&& button is GestureButton || button is HapticPanel
            &&& device.gesture_mode(button)
        },
        device.reported_gestures().contains_key(button) && device.bindings.contains_key(button)
            ==> device.bindings[button] == BindingModel::Gesture(
            device.reported_gestures()[button],
        ),
        device.trigger_actions(app).contains_key(button) <==> button.touchpad(),
        device.button_bindings(app).contains_key(button) <==> !button.touchpad(),
        set_in_front(device, app, button) matches Some(action) ==> {
            &&& !button.touchpad() ==> device.button_bindings(app)[button]
                == BindingModel::Single(action)
            &&& button.touchpad() ==> device.trigger_actions(app)[button] == action
        },
        set_in_front(device, app, button) is None && device.bindings.contains_key(button) ==> {
            &&& !button.touchpad() ==> device.button_bindings(app)[button].click()
                == device.bindings[button].click()
            &&& !button.touchpad() && device.bindings[button] is LongPress
                ==> device.button_bindings(app)[button] == device.bindings[button]
            &&& button.touchpad() ==> device.trigger_actions(app)[button]
                == device.bindings[button].click()
        },
{
}

}
