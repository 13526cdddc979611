//! What captured events do.
//!
//! An event is resolved against the plan of the device it came from. What is
//! remembered between events belongs to one session, so a session that replaces
//! another starts afresh.

use vstd::prelude::*;
use vstd::string::StrSliceExecFns;

use crate::agent::capture_plan::{DeviceCapturePlan, PlanModel};
use crate::agent::input::{CapturedInput, InputModel, WheelResolution};
use crate::agent::session::{HidppSessionId, SessionModel};
use crate::binding::action::{Action, ActionModel};
use crate::binding::button::{ButtonId, GestureDirection};
use crate::binding::shape::{default_action, default_binding, Binding, BindingModel};
use crate::config::settings::ThumbwheelSensitivity;
use crate::ordered::{each, is_key_order, lemma_taken_one_more, opt, OrderedMap, Replicate, Same};
use crate::text::same_text;
use crate::touchpad::{
    FrameModel, GestureRecognition, RecognizerModel, TouchFrame, TouchpadGesture,
    TouchpadGestureRecognizer,
};

verus! {

/// What the thumb wheel does. A change of it starts a session over.
#[derive(Debug, PartialEq, Eq)]
pub struct WheelConfiguration {
    pub up: Action,
    pub down: Action,
    pub sensitivity: ThumbwheelSensitivity,
}

/// The model of a [`WheelConfiguration`].
pub ghost struct WheelModel {
    pub up: ActionModel,
    pub down: ActionModel,
    pub sensitivity: ThumbwheelSensitivity,
}

impl View for WheelConfiguration {
    type V = WheelModel;

    open spec fn view(&self) -> WheelModel {
        WheelModel { up: self.up@, down: self.down@, sensitivity: self.sensitivity }
    }
}

impl Replicate for WheelConfiguration {
    fn replicate(&self) -> (copy: Self) {
        WheelConfiguration {
            up: self.up.replicate(),
            down: self.down.replicate(),
            sensitivity: self.sensitivity,
        }
    }
}

impl Same for WheelConfiguration {
    fn same(&self, other: &Self) -> (same: bool) {
        self.up.same(&other.up) && self.down.same(&other.down) && self.sensitivity
            == other.sensitivity
    }
}

impl PlanModel {
    /// What a plain press of a control does.
    pub open spec fn press(self, button: ButtonId) -> ActionModel {
        if self.bindings.contains_key(button) {
            self.bindings[button].click()
        } else {
            default_action(button)@
        }
    }

    /// What the thumb wheel does.
    pub open spec fn wheel(self) -> WheelModel {
        WheelModel {
            up: self.press(ButtonId::ThumbwheelScrollUp),
            down: self.press(ButtonId::ThumbwheelScrollDown),
            sensitivity: self.thumbwheel_sensitivity,
        }
    }
}

impl WheelConfiguration {
    /// What the thumb wheel does by a plan.
    pub fn for_plan(plan: &DeviceCapturePlan) -> (wheel: WheelConfiguration)
        ensures
            wheel@ == plan@.wheel(),
    {
        WheelConfiguration {
            up: press_of(plan, ButtonId::ThumbwheelScrollUp),
            down: press_of(plan, ButtonId::ThumbwheelScrollDown),
            sensitivity: plan.thumbwheel_sensitivity,
        }
    }
}

fn press_of(plan: &DeviceCapturePlan, button: ButtonId) -> (action: Action)
    ensures
        action@ == plan@.press(button),
{
    match plan.bindings.get(&button) {
        Some(binding) => binding.click_action(),
        None => default_binding(button),
    }
}

/// A press that the button runtime admitted.
#[derive(Clone, Copy, Debug, PartialEq, Eq, Structural)]
pub struct PressToken {
    pub id: u64,
}

impl View for PressToken {
    type V = PressToken;

    open spec fn view(&self) -> PressToken {
        *self
    }
}

/// That a session has turned its wheel before.
#[derive(Clone, Copy, Debug, PartialEq, Eq, Structural)]
pub struct WheelInUse;

impl View for WheelInUse {
    type V = WheelInUse;

    open spec fn view(&self) -> WheelInUse {
        *self
    }
}

/// One touchpad's strokes, with what its triggers did when the stroke began.
pub struct TouchpadRuntime {
    recognizer: TouchpadGestureRecognizer,
    frozen_bindings: Option<OrderedMap<ButtonId, Action>>,
    frozen_actions_enabled: bool,
}

/// The model of a [`TouchpadRuntime`].
pub ghost struct TouchpadModel {
    pub recognizer: RecognizerModel,
    /// What the triggers did when the stroke began.
    pub frozen_bindings: Option<Map<ButtonId, ActionModel>>,
    /// Whether triggers did anything when the stroke began.
    pub frozen_actions_enabled: bool,
}

impl View for TouchpadRuntime {
    type V = TouchpadModel;

    closed spec fn view(&self) -> TouchpadModel {
        TouchpadModel {
            recognizer: self.recognizer@,
            frozen_bindings: opt(self.frozen_bindings),
            frozen_actions_enabled: self.frozen_actions_enabled,
        }
    }
}

/// What a trigger does, with the trigger.
pub ghost struct FiredModel {
    pub trigger: ButtonId,
    pub action: ActionModel,
}

/// The model of a trigger and what it does.
pub open spec fn fired(pair: Option<(ButtonId, Action)>) -> Option<FiredModel> {
    match pair {
        Some((trigger, action)) => Some(FiredModel { trigger, action: action@ }),
        None => None,
    }
}

impl TouchpadModel {
    /// A touchpad that nothing touches.
    pub open spec fn idle() -> TouchpadModel {
        TouchpadModel {
            recognizer: RecognizerModel::Idle,
            frozen_bindings: None,
            frozen_actions_enabled: false,
        }
    }

    /// The touchpad with what its triggers do written down, if it is not yet.
    pub open spec fn frozen(
        self,
        bindings: Map<ButtonId, ActionModel>,
        enabled: bool,
    ) -> TouchpadModel {
        match self.frozen_bindings {
            Some(_) => self,
            None => TouchpadModel {
                frozen_bindings: Some(bindings),
                frozen_actions_enabled: enabled,
                ..self
            },
        }
    }

    /// What a gesture does by what was written down.
    pub open spec fn action(self, gesture: TouchpadGesture) -> Option<FiredModel> {
        match self.frozen_bindings {
            Some(bindings) => if bindings.contains_key(gesture.trigger_button()) {
                Some(
                    FiredModel {
                        trigger: gesture.trigger_button(),
                        action: bindings[gesture.trigger_button()],
                    },
                )
            } else {
                None
            },
            None => None,
        }
    }

    /// The touchpad after one frame, and what fires.
    pub open spec fn updated(
        self,
        frame: FrameModel,
        bindings: Map<ButtonId, ActionModel>,
        enabled: bool,
    ) -> (TouchpadModel, Option<FiredModel>) {
        let frozen = self.frozen(bindings, enabled);
        let (recognizer, recognition) = self.recognizer.step(frame);
        (
            TouchpadModel { recognizer, ..frozen },
            match recognition {
                GestureRecognition::Gesture(gesture) => if frozen.frozen_actions_enabled
                    && enabled {
                    frozen.action(gesture)
                } else {
                    None
                },
                _ => None,
            },
        )
    }

    /// What fires when the last finger lifts.
    pub open spec fn tapped(self, enabled: bool) -> Option<FiredModel> {
        match self.recognizer.ending() {
            Some(gesture) => if self.frozen_actions_enabled && enabled {
                self.action(gesture)
            } else {
                None
            },
            None => None,
        }
    }

    /// The touchpad once its stroke came to nothing.
    pub open spec fn cancelled() -> TouchpadModel {
        TouchpadModel { recognizer: RecognizerModel::Cancelled, ..TouchpadModel::idle() }
    }
}

impl Default for TouchpadRuntime {
    fn default() -> (runtime: Self)
        ensures
            runtime@ == TouchpadModel::idle(),
    {
        TouchpadRuntime {
            recognizer: TouchpadGestureRecognizer::default(),
            frozen_bindings: None,
            frozen_actions_enabled: false,
        }
    }
}

impl TouchpadRuntime {
    /// Take in one frame, and give what fires.
    pub fn update(
        &mut self,
        frame: &TouchFrame,
        current_bindings: &OrderedMap<ButtonId, Action>,
        actions_enabled: bool,
    ) -> (pair: Option<(ButtonId, Action)>)
        ensures
            (final(self)@, fired(pair)) == old(self)@.updated(
                frame@,
                current_bindings@,
                actions_enabled,
            ),
    {
        if self.frozen_bindings.is_none() {
            self.frozen_bindings = Some(current_bindings.replicate());
            self.frozen_actions_enabled = actions_enabled;
        }
        match self.recognizer.update(frame) {
            GestureRecognition::Gesture(gesture) => {
                if self.frozen_actions_enabled && actions_enabled {
                    self.action(gesture)
                } else {
                    None
                }
            },
            _ => None,
        }
    }

    /// Take in that the last finger lifted, and give what fires.
    pub fn end(&mut self, actions_enabled: bool) -> (pair: Option<(ButtonId, Action)>)
        ensures
            fired(pair) == old(self)@.tapped(actions_enabled),
            final(self)@ == TouchpadModel::idle(),
    {
        let pair = match self.recognizer.end() {
            Some(gesture) => if self.frozen_actions_enabled && actions_enabled {
                self.action(gesture)
            } else {
                None
            },
            None => None,
        };
        self.frozen_bindings = None;
        self.frozen_actions_enabled = false;
        pair
    }

    /// Take in that the stroke came to nothing.
    pub fn cancel(&mut self)
        ensures
            final(self)@ == TouchpadModel::cancelled(),
    {
        self.recognizer.cancel();
        self.frozen_bindings = None;
        self.frozen_actions_enabled = false;
    }

    fn action(&self, gesture: TouchpadGesture) -> (pair: Option<(ButtonId, Action)>)
        ensures
            fired(pair) == self@.action(gesture),
    {
        let trigger: ButtonId = gesture.trigger();
        match &self.frozen_bindings {
            Some(bindings) => match bindings.get(&trigger) {
                Some(action) => Some((trigger, action.replicate())),
                None => None,
            },
            None => None,
        }
    }
}

/// What whoever owns the outputs is asked to do.
#[derive(Debug, PartialEq, Eq)]
pub enum Command {
    /// Nothing.
    Rest,
    /// Drop whatever a session still holds.
    Cancel { session: HidppSessionId },
    /// Take a control as down, and say whether the press is admitted.
    ButtonDown {
        session: HidppSessionId,
        button: ButtonId,
        binding: Option<Binding>,
        /// Whether the press belongs to a control that swipes, and has to be
        /// reported back.
        swipes: bool,
    },
    /// Take a control as up.
    ButtonUp { session: HidppSessionId, button: ButtonId },
    /// Take a control as pressed and released.
    ButtonPulse { session: HidppSessionId, button: ButtonId, binding: Option<Binding> },
    /// Do something, as long as a press is still admitted.
    WhilePressed { press: PressToken, action: Action },
    /// Do something on behalf of a device.
    Act { device_key: String, action: Action },
    /// Turn the thumb wheel.
    TurnWheel {
        session: HidppSessionId,
        button: ButtonId,
        action: Action,
        sensitivity: ThumbwheelSensitivity,
        increments: i16,
        resolution: Option<WheelResolution>,
        /// Whether the session turns its wheel for the first time.
        begins: bool,
    },
}

/// The model of a [`Command`].
pub ghost enum CommandModel {
    Rest,
    Cancel { session: SessionModel },
    ButtonDown {
        session: SessionModel,
        button: ButtonId,
        binding: Option<BindingModel>,
        swipes: bool,
    },
    ButtonUp { session: SessionModel, button: ButtonId },
    ButtonPulse { session: SessionModel, button: ButtonId, binding: Option<BindingModel> },
    WhilePressed { press: PressToken, action: ActionModel },
    Act { device_key: Seq<char>, action: ActionModel },
    TurnWheel {
        session: SessionModel,
        button: ButtonId,
        action: ActionModel,
        sensitivity: ThumbwheelSensitivity,
        increments: i16,
        resolution: Option<WheelResolution>,
        begins: bool,
    },
}

impl View for Command {
    type V = CommandModel;

    open spec fn view(&self) -> CommandModel {
        match self {
            Command::Rest => CommandModel::Rest,
            Command::Cancel { session } => CommandModel::Cancel { session: session@ },
            Command::ButtonDown { session, button, binding, swipes } => CommandModel::ButtonDown {
                session: session@,
                button: *button,
                binding: opt(*binding),
                swipes: *swipes,
            },
            Command::ButtonUp { session, button } => CommandModel::ButtonUp {
                session: session@,
                button: *button,
            },
            Command::ButtonPulse { session, button, binding } => CommandModel::ButtonPulse {
                session: session@,
                button: *button,
                binding: opt(*binding),
            },
            Command::WhilePressed { press, action } => CommandModel::WhilePressed {
                press: *press,
                action: action@,
            },
            Command::Act { device_key, action } => CommandModel::Act {
                device_key: device_key@,
                action: action@,
            },
            Command::TurnWheel {
                session,
                button,
                action,
                sensitivity,
                increments,
                resolution,
                begins,
            } => CommandModel::TurnWheel {
                session: session@,
                button: *button,
                action: action@,
                sensitivity: *sensitivity,
                increments: *increments,
                resolution: *resolution,
                begins: *begins,
            },
        }
    }
}

/// What is remembered between events.
pub struct InputDispatcher {
    wheels: OrderedMap<HidppSessionId, WheelInUse>,
    gesture_presses: OrderedMap<HidppSessionId, OrderedMap<ButtonId, PressToken>>,
    touchpads: OrderedMap<HidppSessionId, TouchpadRuntime>,
}

/// The model of an [`InputDispatcher`].
#[verifier::ext_equal]
pub ghost struct DispatcherModel {
    /// The sessions that have turned their wheel.
    pub wheels: Map<SessionModel, WheelInUse>,
    /// The presses of controls that swipe.
    pub presses: Map<SessionModel, Map<ButtonId, PressToken>>,
    /// The touchpads.
    pub touchpads: Map<SessionModel, TouchpadModel>,
}

impl View for InputDispatcher {
    type V = DispatcherModel;

    closed spec fn view(&self) -> DispatcherModel {
        DispatcherModel {
            wheels: self.wheels@,
            presses: self.gesture_presses@,
            touchpads: self.touchpads@,
        }
    }
}

/// What is stored under a key, if anything.
pub open spec fn lookup<A, B>(map: Map<A, B>, key: A) -> Option<B> {
    if map.contains_key(key) {
        Some(map[key])
    } else {
        None
    }
}

/// The first plan for a device.
pub open spec fn plan_of(plans: Seq<PlanModel>, device_key: Seq<char>) -> Option<PlanModel>
    decreases plans.len(),
{
    if plans.len() == 0 {
        None
    } else if plans[0].config_key == device_key {
        Some(plans[0])
    } else {
        plan_of(plans.drop_first(), device_key)
    }
}

/// The control that a turn of the thumb wheel stands for, if it turned at all.
pub open spec fn wheel_button(increments: i16) -> Option<ButtonId> {
    if increments > 0 {
        Some(ButtonId::ThumbwheelScrollUp)
    } else if increments < 0 {
        Some(ButtonId::ThumbwheelScrollDown)
    } else {
        None
    }
}

/// What is asked for when a trigger fires, or nothing.
pub open spec fn acting(fired: Option<FiredModel>, device_key: Seq<char>) -> CommandModel {
    match fired {
        Some(fired) => CommandModel::Act { device_key, action: fired.action },
        None => CommandModel::Rest,
    }
}

/// The sessions of wanted devices.
pub open spec fn of_wanted<B, T>(
    map: Map<SessionModel, B>,
    wanted: Map<Seq<char>, T>,
) -> Map<SessionModel, B> {
    Map::new(
        |s: SessionModel| map.contains_key(s) && wanted.contains_key(s.device_key),
        |s: SessionModel| map[s],
    )
}

impl DispatcherModel {
    /// Nothing remembered.
    pub open spec fn blank() -> DispatcherModel {
        DispatcherModel { wheels: Map::empty(), presses: Map::empty(), touchpads: Map::empty() }
    }

    /// The press of a control that swipes, if one was admitted.
    pub open spec fn press(self, session: SessionModel, button: ButtonId) -> Option<PressToken> {
        match lookup(self.presses, session) {
            Some(buttons) => lookup(buttons, button),
            None => None,
        }
    }

    /// A session's touchpad.
    pub open spec fn touchpad(self, session: SessionModel) -> TouchpadModel {
        match lookup(self.touchpads, session) {
            Some(touchpad) => touchpad,
            None => TouchpadModel::idle(),
        }
    }

    /// Everything of one session forgotten.
    pub open spec fn without_session(self, session: SessionModel) -> DispatcherModel {
        DispatcherModel {
            wheels: self.wheels.remove(session),
            presses: self.presses.remove(session),
            touchpads: self.touchpads.remove(session),
        }
    }

    /// A press of a control that swipes admitted, or not.
    pub open spec fn with_press(
        self,
        session: SessionModel,
        button: ButtonId,
        press: Option<PressToken>,
    ) -> DispatcherModel {
        let buttons = match lookup(self.presses, session) {
            Some(buttons) => buttons,
            None => Map::empty(),
        };
        DispatcherModel {
            presses: self.presses.insert(
                session,
                match press {
                    Some(press) => buttons.insert(button, press),
                    None => buttons.remove(button),
                },
            ),
            ..self
        }
    }

    /// What one event leads to, and what is asked for.
    pub open spec fn step(
        self,
        session: SessionModel,
        input: InputModel,
        plan: Option<PlanModel>,
        touchpad_actions_enabled: bool,
    ) -> (DispatcherModel, CommandModel) {
        match plan {
            None => (self, CommandModel::Rest),
            Some(plan) => match input {
                InputModel::Gesture(button, direction) => (
                    self,
                    match (
                        self.press(session, button),
                        lookup(plan.gesture_bindings, button),
                    ) {
                        (Some(press), Some(directions)) => match lookup(directions, direction) {
                            Some(action) => CommandModel::WhilePressed { press, action },
                            None => CommandModel::Rest,
                        },
                        _ => CommandModel::Rest,
                    },
                ),
                InputModel::ButtonDown(button) => {
                    let swipes = plan.gesture_bindings.contains_key(button);
                    (
                        self,
                        CommandModel::ButtonDown {
                            session,
                            button,
                            binding: if swipes {
                                None
                            } else {
                                lookup(plan.bindings, button)
                            },
                            swipes,
                        },
                    )
                },
                InputModel::ButtonUp(button) => (
                    self.with_press(session, button, None),
                    CommandModel::ButtonUp { session, button },
                ),
                InputModel::ButtonPulse(button) => (
                    self,
                    CommandModel::ButtonPulse {
                        session,
                        button,
                        binding: lookup(plan.bindings, button),
                    },
                ),
                InputModel::Scroll { increments, resolution } => match wheel_button(increments) {
                    None => (self, CommandModel::Rest),
                    Some(button) => (
                        DispatcherModel {
                            wheels: self.wheels.insert(session, WheelInUse),
                            ..self
                        },
                        CommandModel::TurnWheel {
                            session,
                            button,
                            action: plan.press(button),
                            sensitivity: plan.thumbwheel_sensitivity,
                            increments,
                            resolution,
                            begins: !self.wheels.contains_key(session),
                        },
                    ),
                },
                InputModel::TouchpadFrame(frame) => {
                    let (touchpad, fired) = self.touchpad(session).updated(
                        frame,
                        plan.touchpad_bindings,
                        touchpad_actions_enabled,
                    );
                    (
                        DispatcherModel {
                            touchpads: self.touchpads.insert(session, touchpad),
                            ..self
                        },
                        acting(fired, session.device_key),
                    )
                },
                InputModel::TouchpadEnd => (
                    DispatcherModel {
                        touchpads: self.touchpads.insert(session, TouchpadModel::idle()),
                        ..self
                    },
                    acting(
                        self.touchpad(session).tapped(touchpad_actions_enabled),
                        session.device_key,
                    ),
                ),
                InputModel::TouchpadCancel => (
                    DispatcherModel {
                        touchpads: self.touchpads.insert(session, TouchpadModel::cancelled()),
                        ..self
                    },
                    CommandModel::Rest,
                ),
                InputModel::TouchpadDroppedFrames(count) => (self, CommandModel::Rest),
            },
        }
    }

    /// Everything of devices that are not wanted forgotten, but for presses.
    pub open spec fn with_devices_in<T>(self, wanted: Map<Seq<char>, T>) -> DispatcherModel {
        DispatcherModel {
            wheels: of_wanted(self.wheels, wanted),
            touchpads: of_wanted(self.touchpads, wanted),
            ..self
        }
    }
}

/// The first plan for a device.
pub fn find_plan<'a>(plans: &'a Vec<DeviceCapturePlan>, device_key: &str) -> (plan: Option<
    &'a DeviceCapturePlan,
>)
    ensures
        match plan {
            Some(plan) => plan_of(each(plans@), device_key@) == Some(plan@),
            None => plan_of(each(plans@), device_key@) is None,
        },
{
    let ghost all = each(plans@);
    let mut i: usize = 0;
    assert(all.skip(0) =~= all);
    while i < plans.len()
        invariant
            all == each(plans@),
            i <= all.len(),
            plan_of(all, device_key@) == plan_of(all.skip(i as int), device_key@),
        decreases all.len() - i,
    {
        assert(all.skip(i as int)[0] == plans@[i as int]@);
        if same_text(plans[i].config_key.as_str(), device_key) {
            return Some(&plans[i]);
        }
        assert(all.skip(i as int).drop_first() =~= all.skip(i + 1));
        i += 1;
    }
    None
}

fn keep_wanted<V: View, T: View>(
    map: &mut OrderedMap<HidppSessionId, V>,
    wanted: &OrderedMap<String, T>,
)
    ensures
        final(map)@ == of_wanted(old(map)@, wanted@),
{
    let ghost start = map@;
    let ghost order = map.order();
    let n: usize = map.len();
    let mut gone: Vec<HidppSessionId> = Vec::new();
    let mut i: usize = 0;
    while i < n
        invariant
            n == order.len(),
            order == map.order(),
            map@ == start,
            is_key_order::<HidppSessionId, V::V>(order, start),
            i <= n,
            forall|s: SessionModel| #[trigger]
                each(gone@).contains(s) <==> order.take(i as int).contains(s)
                    && !wanted@.contains_key(s.device_key),
        decreases n - i,
    {
        let ghost before = each(gone@);
        let session = map.key_at(i);
        if !wanted.contains_key(session.device_key()) {
            gone.push(session.replicate());
            assert(each(gone@) =~= before.push(order[i as int]));
            assert(each(gone@).last() == order[i as int]);
            assert forall|s: SessionModel| #[trigger]
                each(gone@).contains(s) <==> before.contains(s) || s == order[i as int] by {
                if before.contains(s) {
                    assert(each(gone@)[before.index_of(s)] == s);
                }
                if each(gone@).contains(s) {
                    let j = each(gone@).index_of(s);
                    if j < before.len() {
                        assert(before[j] == s);
                    }
                }
                assert(each(gone@)[before.len() as int] == order[i as int]);
            }
        }
        proof {
            assert forall|s: SessionModel| #[trigger]
                each(gone@).contains(s) <==> order.take(i + 1).contains(s) && !wanted@.contains_key(
                    s.device_key,
                ) by {
                lemma_taken_one_more(order, i as int, s);
                assert(before.contains(s) <==> order.take(i as int).contains(s)
                    && !wanted@.contains_key(s.device_key));
            }
        }
        i += 1;
    }
    map.remove_all(&gone);
    proof {
        assert(order.take(n as int) =~= order);
        assert(map@ =~= of_wanted(start, wanted@));
    }
}

impl Default for InputDispatcher {
    fn default() -> (dispatcher: Self)
        ensures
            dispatcher@ == DispatcherModel::blank(),
    {
        InputDispatcher {
            wheels: OrderedMap::new(),
            gesture_presses: OrderedMap::new(),
            touchpads: OrderedMap::new(),
        }
    }
}

impl InputDispatcher {
    /// Forget everything of one session.
    pub fn cancel_session(&mut self, session: &HidppSessionId)
        ensures
            final(self)@ == old(self)@.without_session(session@),
    {
        let _ = self.wheels.remove(session);
        let _ = self.gesture_presses.remove(session);
        let _ = self.touchpads.remove(session);
    }

    /// Forget what belongs to devices that are not wanted.
    pub fn retain_devices<T: View>(&mut self, wanted: &OrderedMap<String, T>)
        ensures
            final(self)@ == old(self)@.with_devices_in(wanted@),
    {
        keep_wanted(&mut self.wheels, wanted);
        keep_wanted(&mut self.touchpads, wanted);
    }

    /// Remember that a press of a control that swipes was admitted, or was not.
    pub fn note_press(
        &mut self,
        session: &HidppSessionId,
        button: ButtonId,
        press: Option<PressToken>,
    )
        ensures
            final(self)@ == old(self)@.with_press(session@, button, press),
    {
        let buttons = self.gesture_presses.get_or_insert(session.replicate(), OrderedMap::new());
        match press {
            Some(press) => {
                let _ = buttons.insert(button, press);
            },
            None => {
                let _ = buttons.remove(&button);
            },
        }
    }

    /// Take in one event of a session, and say what it asks for.
    pub fn dispatch(
        &mut self,
        session: &HidppSessionId,
        input: &CapturedInput,
        plans: &Vec<DeviceCapturePlan>,
        touchpad_actions_enabled: bool,
    ) -> (command: Command)
        ensures
            (final(self)@, command@) == old(self)@.step(
                session@,
                input@,
                plan_of(each(plans@), session@.device_key),
                touchpad_actions_enabled,
            ),
    {
        let plan = match find_plan(plans, session.device_key()) {
            Some(plan) => plan,
            None => {
                return Command::Rest;
            },
        };
        match input {
            CapturedInput::Gesture(button, direction) => {
                self.dispatch_gesture(session, plan, *button, *direction)
            },
            CapturedInput::ButtonDown(button) => {
                let swipes: bool = plan.gesture_bindings.contains_key(button);
                let binding = if swipes {
                    None
                } else {
                    bound_to(plan, *button)
                };
                Command::ButtonDown {
                    session: session.replicate(),
                    button: *button,
                    binding,
                    swipes,
                }
            },
            CapturedInput::ButtonUp(button) => {
                self.note_press(session, *button, None);
                Command::ButtonUp { session: session.replicate(), button: *button }
            },
            CapturedInput::ButtonPulse(button) => Command::ButtonPulse {
                session: session.replicate(),
                button: *button,
                binding: bound_to(plan, *button),
            },
            CapturedInput::Scroll { increments, resolution } => {
                let button: ButtonId = if *increments > 0 {
                    ButtonId::ThumbwheelScrollUp
                } else if *increments < 0 {
                    ButtonId::ThumbwheelScrollDown
                } else {
                    return Command::Rest;
                };
                let displaced = self.wheels.insert(session.replicate(), WheelInUse);
                Command::TurnWheel {
                    session: session.replicate(),
                    button,
                    action: press_of(plan, button),
                    sensitivity: plan.thumbwheel_sensitivity,
                    increments: *increments,
                    resolution: *resolution,
                    begins: displaced.is_none(),
                }
            },
            CapturedInput::TouchpadFrame(frame) => {
                let touchpad = self.touchpads.get_or_insert(
                    session.replicate(),
                    TouchpadRuntime::default(),
                );
                let pair = touchpad.update(
                    frame,
                    &plan.touchpad_bindings,
                    touchpad_actions_enabled,
                );
                command_for(pair, session.device_key())
            },
            CapturedInput::TouchpadEnd => {
                let touchpad = self.touchpads.get_or_insert(
                    session.replicate(),
                    TouchpadRuntime::default(),
                );
                let pair = touchpad.end(touchpad_actions_enabled);
                command_for(pair, session.device_key())
            },
            CapturedInput::TouchpadCancel => {
                let touchpad = self.touchpads.get_or_insert(
                    session.replicate(),
                    TouchpadRuntime::default(),
                );
                touchpad.cancel();
                Command::Rest
            },
            CapturedInput::TouchpadDroppedFrames(_) => Command::Rest,
        }
    }

    fn dispatch_gesture(
        &self,
        session: &HidppSessionId,
        plan: &DeviceCapturePlan,
        button: ButtonId,
        direction: GestureDirection,
    ) -> (command: Command)
        ensures
            command@ == self@.step(
                session@,
                InputModel::Gesture(button, direction),
                Some(plan@),
                false,
            ).1,
    {
        let press = match self.gesture_presses.get(session) {
            Some(buttons) => match buttons.get(&button) {
                Some(press) => *press,
                None => {
                    return Command::Rest;
                },
            },
            None => {
                return Command::Rest;
            },
        };
        match plan.gesture_bindings.get(&button) {
            Some(directions) => match directions.get(&direction) {
                Some(action) => Command::WhilePressed { press, action: action.replicate() },
                None => Command::Rest,
            },
            None => Command::Rest,
        }
    }
}

fn bound_to(plan: &DeviceCapturePlan, button: ButtonId) -> (binding: Option<Binding>)
    ensures
        opt(binding) == lookup(plan@.bindings, button),
{
    match plan.bindings.get(&button) {
        Some(binding) => Some(binding.replicate()),
        None => None,
    }
}

fn command_for(pair: Option<(ButtonId, Action)>, device_key: &str) -> (command: Command)
    ensures
        command@ == acting(fired(pair), device_key@),
{
    match pair {
        Some((_, action)) => Command::Act { device_key: device_key.to_owned(), action },
        None => Command::Rest,
    }
}

/// What a stroke fires is what its trigger did when the stroke began, whatever
/// the triggers do by the time it ends.
pub proof fn law_a_stroke_keeps_the_bindings_it_began_with(
    touchpad: TouchpadModel,
    frame: FrameModel,
    began_with: Map<ButtonId, ActionModel>,
    later: Map<ButtonId, ActionModel>,
    enabled: bool,
)
    requires
        touchpad.frozen_bindings == Some(began_with),
    ensures
        touchpad.updated(frame, later, enabled).0.frozen_bindings == Some(began_with),
        touchpad.updated(frame, later, enabled).1 matches Some(fired) ==> began_with.contains_key(
            fired.trigger,
        ) && fired.action == began_with[fired.trigger],
        touchpad.tapped(enabled) matches Some(fired) ==> began_with.contains_key(fired.trigger)
            && fired.action == began_with[fired.trigger],
{
}

/// A stroke that began while triggers did nothing fires nothing, though they do
/// by the time it ends; and none fires while they do nothing.
pub proof fn law_a_diagnostic_stroke_fires_nothing(
    touchpad: TouchpadModel,
    frame: FrameModel,
    bindings: Map<ButtonId, ActionModel>,
    enabled: bool,
)
    requires
        touchpad.frozen_bindings is Some,
        !touchpad.frozen_actions_enabled || !enabled,
    ensures
        touchpad.updated(frame, bindings, enabled).1 is None,
        touchpad.tapped(enabled) is None,
        touchpad.updated(frame, bindings, enabled).0.frozen_actions_enabled
            == touchpad.frozen_actions_enabled,
{
}

/// An event of one session, and the end of it, change nothing of another's.
pub proof fn law_sessions_share_nothing(
    dispatcher: DispatcherModel,
    session: SessionModel,
    other: SessionModel,
    input: InputModel,
    plan: Option<PlanModel>,
    enabled: bool,
    button: ButtonId,
)
    requires
        other != session,
    ensures
        ({
            let after = dispatcher.step(session, input, plan, enabled).0;
            &&& after.touchpad(other) == dispatcher.touchpad(other)
            &&& after.press(other, button) == dispatcher.press(other, button)
            &&& after.wheels.contains_key(other) == dispatcher.wheels.contains_key(other)
        }),
        dispatcher.without_session(session).touchpad(other) == dispatcher.touchpad(other),
        dispatcher.without_session(session).press(other, button) == dispatcher.press(other, button),
        dispatcher.without_session(session).wheels.contains_key(other)
            == dispatcher.wheels.contains_key(other),
{
}

/// A session that replaces another starts afresh: its wheel, its presses and its
/// touchpad are as if nothing had happened.
pub proof fn law_a_cancelled_session_starts_afresh(
    dispatcher: DispatcherModel,
    session: SessionModel,
    button: ButtonId,
)
    ensures
        dispatcher.without_session(session).touchpad(session) == TouchpadModel::idle(),
        dispatcher.without_session(session).press(session, button) is None,
        !dispatcher.without_session(session).wheels.contains_key(session),
{
}

/// A swipe does something only while the press it belongs to was admitted and
/// not released.
pub proof fn law_a_swipe_needs_its_press(
    dispatcher: DispatcherModel,
    session: SessionModel,
    button: ButtonId,
    direction: GestureDirection,
    plan: Option<PlanModel>,
    enabled: bool,
)
    requires
        dispatcher.press(session, button) is None,
    ensures
        dispatcher.step(session, InputModel::Gesture(button, direction), plan, enabled).1
            is Rest,
        dispatcher.with_press(session, button, None).press(session, button) is None,
{
}

/// A turn of the thumb wheel does what its own direction is bound to: up where
/// it turned up, down where it turned down, as the plan binds that direction, or
/// as the direction does by default. How far and how fine it turned is passed
/// on, and so is the device's sensitivity. A wheel that did not turn does
/// nothing, and whatever turns it is the wheel.
pub proof fn law_a_turn_does_what_its_direction_is_bound_to(
    dispatcher: DispatcherModel,
    session: SessionModel,
    turned: i16,
    resolution: Option<WheelResolution>,
    plan: PlanModel,
    enabled: bool,
)
    ensures
        match dispatcher.step(
            session,
            InputModel::Scroll { increments: turned, resolution },
            Some(plan),
            enabled,
        ).1 {
            CommandModel::TurnWheel {
                session: by,
                button,
                action,
                sensitivity,
                increments,
                resolution: fine,
                begins,
            } => {
                &&& by == session
                &&& increments == turned
                &&& fine == resolution
                &&& sensitivity == plan.thumbwheel_sensitivity
                &&& turned > 0 && button is ThumbwheelScrollUp || turned < 0
                    && button is ThumbwheelScrollDown
                &&& turned > 0 ==> action == plan.wheel().up
                &&& turned < 0 ==> action == plan.wheel().down
                &&& plan.bindings.contains_key(button) ==> action == plan.bindings[button].click()
                &&& !plan.bindings.contains_key(button) ==> action == default_action(button)@
                &&& begins <==> !dispatcher.wheels.contains_key(session)
            },
            CommandModel::Rest => turned == 0,
            _ => false,
        },
{
}

/// The wheel of a plan does up what the plan binds turning up to, and down what
/// it binds turning down to.
pub proof fn law_the_wheel_is_bound_by_direction(
    plan: PlanModel,
    up: BindingModel,
    down: BindingModel,
)
    ensures
        ({
            let bound = PlanModel {
                bindings: plan.bindings.insert(ButtonId::ThumbwheelScrollUp, up).insert(
                    ButtonId::ThumbwheelScrollDown,
                    down,
                ),
                ..plan
            };
            &&& bound.wheel().up == up.click()
            &&& bound.wheel().down == down.click()
            &&& bound.wheel().sensitivity == plan.thumbwheel_sensitivity
        }),
{
}

/// A session turns its wheel for the first time once, however often it turns it.
pub proof fn law_a_wheel_begins_once(
    dispatcher: DispatcherModel,
    session: SessionModel,
    first: i16,
    second: i16,
    resolution: Option<WheelResolution>,
    plan: PlanModel,
    enabled: bool,
)
    requires
        first != 0,
    ensures
        ({
            let once = dispatcher.step(
                session,
                InputModel::Scroll { increments: first, resolution },
                Some(plan),
                enabled,
            ).0;
            let again = once.step(
                session,
                InputModel::Scroll { increments: second, resolution },
                Some(plan),
                enabled,
            ).1;
            &&& again matches CommandModel::TurnWheel { begins, .. } ==> !begins
            &&& once.presses == dispatcher.presses
            &&& once.touchpads == dispatcher.touchpads
        }),
{
}

/// A control that goes down, or is pulsed, carries what the plan binds it to,
/// and nothing where the plan binds it to nothing. One that swipes carries
/// nothing when it goes down: its swipes do. No other control is spoken of, and
/// nothing is remembered.
pub proof fn law_a_press_carries_what_its_control_is_bound_to(
    dispatcher: DispatcherModel,
    session: SessionModel,
    pressed: ButtonId,
    plan: PlanModel,
    enabled: bool,
)
    ensures
        dispatcher.step(session, InputModel::ButtonDown(pressed), Some(plan), enabled).0
            == dispatcher,
        match dispatcher.step(session, InputModel::ButtonDown(pressed), Some(plan), enabled).1 {
            CommandModel::ButtonDown { session: by, button, binding, swipes } => {
                &&& by == session
                &&& button == pressed
                &&& swipes <==> plan.gesture_bindings.contains_key(pressed)
                &&& swipes ==> binding is None
                &&& !swipes ==> (binding is Some <==> plan.bindings.contains_key(pressed))
                &&& binding matches Some(bound) ==> bound == plan.bindings[pressed]
            },
            _ => false,
        },
        dispatcher.step(session, InputModel::ButtonPulse(pressed), Some(plan), enabled).0
            == dispatcher,
        match dispatcher.step(session, InputModel::ButtonPulse(pressed), Some(plan), enabled).1 {
            CommandModel::ButtonPulse { session: by, button, binding } => {
                &&& by == session
                &&& button == pressed
                &&& binding is Some <==> plan.bindings.contains_key(pressed)
                &&& binding matches Some(bound) ==> bound == plan.bindings[pressed]
            },
            _ => false,
        },
{
}

/// A control that goes up is told so, and its press is forgotten, no other.
pub proof fn law_a_release_ends_its_press(
    dispatcher: DispatcherModel,
    session: SessionModel,
    released: ButtonId,
    other: ButtonId,
    plan: PlanModel,
    enabled: bool,
)
    ensures
        ({
            let (after, command) = dispatcher.step(
                session,
                InputModel::ButtonUp(released),
                Some(plan),
                enabled,
            );
            &&& command == (CommandModel::ButtonUp { session, button: released })
            &&& after.press(session, released) is None
            &&& other != released ==> after.press(session, other) == dispatcher.press(
                session,
                other,
            )
            &&& after.wheels == dispatcher.wheels
            &&& after.touchpads == dispatcher.touchpads
        }),
{
}

/// A swipe of a control that is held does what the plan binds that direction of
/// that control to, as long as the press lasts; an unbound direction does
/// nothing.
pub proof fn law_a_swipe_does_what_its_direction_is_bound_to(
    dispatcher: DispatcherModel,
    session: SessionModel,
    button: ButtonId,
    direction: GestureDirection,
    token: PressToken,
    plan: PlanModel,
    enabled: bool,
)
    ensures
        ({
            let held = dispatcher.with_press(session, button, Some(token));
            let (after, command) = held.step(
                session,
                InputModel::Gesture(button, direction),
                Some(plan),
                enabled,
            );
            &&& after == held
            &&& match command {
                CommandModel::WhilePressed { press, action } => {
                    &&& press == token
                    &&& plan.gesture_bindings.contains_key(button)
                    &&& plan.gesture_bindings[button].contains_key(direction)
                    &&& action == plan.gesture_bindings[button][direction]
                },
                CommandModel::Rest => !plan.gesture_bindings.contains_key(button)
                    || !plan.gesture_bindings[button].contains_key(direction),
                _ => false,
            }
        }),
{
}

/// What fires on a touchpad is what the trigger of the recognized gesture did
/// when the stroke began, on behalf of the session's device; a gesture that is
/// recognized while triggers act fires. A stroke that begins writes down what
/// the plan binds now.
pub proof fn law_a_gesture_fires_its_own_trigger(
    dispatcher: DispatcherModel,
    session: SessionModel,
    frame: FrameModel,
    plan: PlanModel,
    enabled: bool,
)
    ensures
        ({
            let before = dispatcher.touchpad(session);
            let (after, command) = dispatcher.step(
                session,
                InputModel::TouchpadFrame(frame),
                Some(plan),
                enabled,
            );
            let recognition = before.recognizer.step(frame).1;
            let triggers = match before.frozen_bindings {
                Some(triggers) => triggers,
                None => plan.touchpad_bindings,
            };
            let acts = if before.frozen_bindings is Some {
                before.frozen_actions_enabled && enabled
            } else {
                enabled
            };
            &&& after.touchpad(session).recognizer == before.recognizer.step(frame).0
            &&& after.touchpad(session).frozen_bindings == Some(triggers)
            &&& before.frozen_bindings is None ==> after.touchpad(session).frozen_actions_enabled
                == enabled
            &&& match command {
                CommandModel::Act { device_key, action } => {
                    &&& device_key == session.device_key
                    &&& acts
                    &&& recognition matches GestureRecognition::Gesture(gesture)
                        && triggers.contains_key(gesture.trigger_button())
                        && action == triggers[gesture.trigger_button()]
                },
                CommandModel::Rest => !acts || !(recognition matches GestureRecognition::Gesture(
                    gesture,
                ) && triggers.contains_key(gesture.trigger_button())),
                _ => false,
            }
        }),
{
}

/// A tap fires what its trigger did when the stroke began, and the touchpad is
/// idle after it; a stroke that comes to nothing fires nothing, and stays silent
/// until the fingers lift. Lost frames change nothing.
pub proof fn law_a_tap_fires_its_own_trigger(
    dispatcher: DispatcherModel,
    session: SessionModel,
    count: u64,
    plan: PlanModel,
    enabled: bool,
)
    ensures
        ({
            let before = dispatcher.touchpad(session);
            let (ended, command) = dispatcher.step(
                session,
                InputModel::TouchpadEnd,
                Some(plan),
                enabled,
            );
            &&& ended.touchpad(session).recognizer is Idle
            &&& ended.touchpad(session).frozen_bindings is None
            &&& match command {
                CommandModel::Act { device_key, action } => {
                    &&& device_key == session.device_key
                    &&& enabled && before.frozen_actions_enabled
                    &&& before.recognizer.ending() matches Some(tap)
                        && before.frozen_bindings matches Some(triggers)
                        && triggers.contains_key(tap.trigger_button())
                        && action == triggers[tap.trigger_button()]
                },
                CommandModel::Rest => !enabled || !before.frozen_actions_enabled || !(
                before.recognizer.ending() matches Some(tap)
                    && before.frozen_bindings matches Some(triggers)
                    && triggers.contains_key(tap.trigger_button())),
                _ => false,
            }
        }),
        ({
            let (cancelled, command) = dispatcher.step(
                session,
                InputModel::TouchpadCancel,
                Some(plan),
                enabled,
            );
            &&& command is Rest
            &&& cancelled.touchpad(session).recognizer is Cancelled
            &&& cancelled.touchpad(session).frozen_bindings is None
        }),
        dispatcher.step(session, InputModel::TouchpadDroppedFrames(count), Some(plan), enabled)
            == (dispatcher, CommandModel::Rest),
{
}

/// An event of a device without a plan does nothing. The plan of a device is the
/// first with its key.
pub proof fn law_events_go_by_the_plan_of_their_device(
    dispatcher: DispatcherModel,
    session: SessionModel,
    input: InputModel,
    plans: Seq<PlanModel>,
    enabled: bool,
)
    ensures
        dispatcher.step(session, input, None, enabled) == (dispatcher, CommandModel::Rest),
        plan_of(plans, session.device_key) is None <==> forall|i: int|
            0 <= i < plans.len() ==> (#[trigger] plans[i]).config_key != session.device_key,
        plan_of(plans, session.device_key) matches Some(plan) ==> plan.config_key
            == session.device_key && exists|i: int| #[trigger]
            is_first_plan(plans, i, plan),
    decreases plans.len(),
{
    if plans.len() > 0 {
        let rest = plans.drop_first();
        if plans[0].config_key == session.device_key {
            assert(is_first_plan(plans, 0, plans[0]));
        } else {
            law_events_go_by_the_plan_of_their_device(dispatcher, session, input, rest, enabled);
            if let Some(plan) = plan_of(rest, session.device_key) {
                let i = choose|i: int| #[trigger] is_first_plan(rest, i, plan);
                assert forall|j: int| 0 <= j < i + 1 implies (#[trigger] plans[j]).config_key
                    != plan.config_key by {
                    if j > 0 {
                        assert(plans[j] == rest[j - 1]);
                    }
                }
                assert(is_first_plan(plans, i + 1, plan));
            } else {
                assert forall|i: int| 0 <= i < plans.len() implies (
                #[trigger] plans[i]).config_key != session.device_key by {
                    if i > 0 {
                        assert(plans[i] == rest[i - 1]);
                    }
                }
            }
        }
    }
}

/// Whether `plan` stands at `i`, and no plan for its device before.
pub open spec fn is_first_plan(plans: Seq<PlanModel>, i: int, plan: PlanModel) -> bool {
    &&& 0 <= i < plans.len()
    &&& plans[i] == plan
    &&& forall|j: int| 0 <= j < i ==> (#[trigger] plans[j]).config_key != plan.config_key
}

}
