//! The shapes a binding can take, and what controls do when nothing is bound.

use vstd::prelude::*;

use crate::binding::action::{Action, ActionModel};
use crate::binding::button::{ButtonId, GestureDirection};
use crate::ordered::{OrderedMap, Replicate};

verus! {

/// One action per direction.
pub type DirectionMap = OrderedMap<GestureDirection, Action>;

/// What is bound to a control.
#[derive(Clone, Debug, PartialEq, Eq)]
pub enum Binding {
    /// One action on press.
    Single(Action),
    /// One action for a short press, another for a long one.
    LongPress(LongPressBinding),
    /// One action per direction of a swipe while held.
    Gesture(DirectionMap),
}

/// Independent actions for a short and a long press.
#[derive(Clone, Debug, PartialEq, Eq)]
pub struct LongPressBinding {
    /// What a short press does.
    pub short: Action,
    /// What a long press does.
    pub long: Action,
}

/// The model of a [`Binding`].
pub ghost enum BindingModel {
    Single(ActionModel),
    LongPress { short: ActionModel, long: ActionModel },
    Gesture(Map<GestureDirection, ActionModel>),
}

impl View for Binding {
    type V = BindingModel;

    open spec fn view(&self) -> BindingModel {
        match self {
            Binding::Single(action) => BindingModel::Single(action@),
            Binding::LongPress(press) => BindingModel::LongPress {
                short: press.short@,
                long: press.long@,
            },
            Binding::Gesture(map) => BindingModel::Gesture(map@),
        }
    }
}

impl Replicate for Binding {
    fn replicate(&self) -> (copy: Self) {
        match self {
            Binding::Single(action) => Binding::Single(action.replicate()),
            Binding::LongPress(press) => Binding::LongPress(
                LongPressBinding { short: press.short.replicate(), long: press.long.replicate() },
            ),
            Binding::Gesture(map) => Binding::Gesture(map.replicate()),
        }
    }
}

impl LongPressBinding {
    /// A short action and a long one.
    pub fn new(short: Action, long: Action) -> (press: Self)
        ensures
            press.short == short,
            press.long == long,
    {
        LongPressBinding { short, long }
    }

    /// What a short press does.
    pub fn short(&self) -> (action: &Action)
        ensures
            *action == self.short,
    {
        &self.short
    }

    /// What a long press does.
    pub fn long(&self) -> (action: &Action)
        ensures
            *action == self.long,
    {
        &self.long
    }
}

/// What a control does on press when nothing is bound to it.
pub open spec fn default_action(button: ButtonId) -> Action {
    match button {
        ButtonId::LeftClick => Action::LeftClick,
        ButtonId::RightClick => Action::RightClick,
        ButtonId::MiddleClick => Action::MiddleClick,
        ButtonId::Back => Action::BrowserBack,
        ButtonId::Forward => Action::BrowserForward,
        ButtonId::DpiToggle => Action::CycleDpiPresets,
        ButtonId::GestureButton => Action::MissionControl,
        ButtonId::ThumbwheelScrollUp => Action::HorizontalScrollLeft,
        ButtonId::ThumbwheelScrollDown => Action::HorizontalScrollRight,
        ButtonId::HapticPanel => Action::ShowActionsRing,
        ButtonId::WheelTiltLeft => Action::HorizontalScrollLeft,
        ButtonId::WheelTiltRight => Action::HorizontalScrollRight,
        _ => Action::DoNothing,
    }
}

/// What a swipe does when nothing is bound to it.
pub open spec fn default_gesture(direction: GestureDirection) -> Action {
    match direction {
        GestureDirection::Up => Action::MissionControl,
        GestureDirection::Down => Action::ShowDesktop,
        GestureDirection::Left => Action::PreviousDesktop,
        GestureDirection::Right => Action::NextDesktop,
        GestureDirection::Click => Action::AppExpose,
    }
}

/// Every direction with its default.
pub open spec fn default_directions() -> Map<GestureDirection, ActionModel> {
    Map::new(|d: GestureDirection| true, |d: GestureDirection| default_gesture(d)@)
}

/// The binding a control has when nothing is stored for it.
pub open spec fn default_shape(button: ButtonId) -> BindingModel {
    if button is GestureButton {
        BindingModel::Gesture(default_directions())
    } else {
        BindingModel::Single(default_action(button)@)
    }
}

impl BindingModel {
    /// What a plain press does.
    pub open spec fn click(self) -> ActionModel {
        match self {
            BindingModel::Single(action) => action,
            BindingModel::LongPress { short, long } => short,
            BindingModel::Gesture(map) => if map.contains_key(GestureDirection::Click) {
                map[GestureDirection::Click]
            } else {
                ActionModel::Plain(Action::DoNothing)
            },
        }
    }

    /// The binding turned into a direction map: what a press did becomes the
    /// click.
    pub open spec fn upgraded(self) -> BindingModel {
        match self {
            BindingModel::Gesture(map) => self,
            _ => BindingModel::Gesture(
                Map::<GestureDirection, ActionModel>::empty().insert(
                    GestureDirection::Click,
                    self.click(),
                ),
            ),
        }
    }

    /// A direction map with its gaps filled by the defaults; any other shape as
    /// it is.
    pub open spec fn filled(self) -> BindingModel {
        match self {
            BindingModel::Gesture(map) => BindingModel::Gesture(
                default_directions().union_prefer_right(map),
            ),
            _ => self,
        }
    }

    /// A direction map turned into its click, or into `default` where it has
    /// none; any other shape as it is.
    pub open spec fn demoted(self, default: ActionModel) -> BindingModel {
        match self {
            BindingModel::Gesture(map) => BindingModel::Single(
                if map.contains_key(GestureDirection::Click) {
                    map[GestureDirection::Click]
                } else {
                    default
                },
            ),
            _ => self,
        }
    }
}

/// What a control does on press when nothing is bound to it.
pub fn default_binding(button: ButtonId) -> (action: Action)
    ensures
        action == default_action(button),
        action@ == ActionModel::Plain(action),
{
    match button {
        ButtonId::LeftClick => Action::LeftClick,
        ButtonId::RightClick => Action::RightClick,
        ButtonId::MiddleClick => Action::MiddleClick,
        ButtonId::Back => Action::BrowserBack,
        ButtonId::Forward => Action::BrowserForward,
        ButtonId::DpiToggle => Action::CycleDpiPresets,
        ButtonId::GestureButton => Action::MissionControl,
        ButtonId::ThumbwheelScrollUp => Action::HorizontalScrollLeft,
        ButtonId::ThumbwheelScrollDown => Action::HorizontalScrollRight,
        ButtonId::HapticPanel => Action::ShowActionsRing,
        ButtonId::WheelTiltLeft => Action::HorizontalScrollLeft,
        ButtonId::WheelTiltRight => Action::HorizontalScrollRight,
        _ => Action::DoNothing,
    }
}

/// What a swipe does when nothing is bound to it.
pub fn default_gesture_binding(direction: GestureDirection) -> (action: Action)
    ensures
        action == default_gesture(direction),
{
    match direction {
        GestureDirection::Up => Action::MissionControl,
        GestureDirection::Down => Action::ShowDesktop,
        GestureDirection::Left => Action::PreviousDesktop,
        GestureDirection::Right => Action::NextDesktop,
        GestureDirection::Click => Action::AppExpose,
    }
}

/// Every direction with its default.
pub fn default_direction_map() -> (map: DirectionMap)
    ensures
        map@ == default_directions(),
{
    let mut map: DirectionMap = OrderedMap::new();
    let _ = map.insert(
        GestureDirection::Up,
        default_gesture_binding(GestureDirection::Up),
    );
    let _ = map.insert(
        GestureDirection::Down,
        default_gesture_binding(GestureDirection::Down),
    );
    let _ = map.insert(
        GestureDirection::Left,
        default_gesture_binding(GestureDirection::Left),
    );
    let _ = map.insert(
        GestureDirection::Right,
        default_gesture_binding(GestureDirection::Right),
    );
    let _ = map.insert(
        GestureDirection::Click,
        default_gesture_binding(GestureDirection::Click),
    );
    assert(map@ =~= default_directions());
    map
}

/// The binding a control has when nothing is stored for it.
pub fn default_binding_for(button: ButtonId) -> (binding: Binding)
    ensures
        binding@ == default_shape(button),
{
    if button == ButtonId::GestureButton {
        Binding::Gesture(default_direction_map())
    } else {
        Binding::Single(default_binding(button))
    }
}

impl Binding {
    /// What a plain press does.
    pub fn click_action(&self) -> (action: Action)
        ensures
            action@ == self@.click(),
    {
        match self {
            Binding::Single(action) => action.replicate(),
            Binding::LongPress(press) => press.short.replicate(),
            Binding::Gesture(map) => match map.get(&GestureDirection::Click) {
                Some(action) => action.replicate(),
                None => Action::DoNothing,
            },
        }
    }

    /// Whether this is a direction map.
    pub fn is_gesture(&self) -> (yes: bool)
        ensures
            yes == self@ is Gesture,
    {
        matches!(self, Binding::Gesture(_))
    }

    /// Turn this into a direction map, keeping what a press did as the click.
    pub fn upgrade_to_gesture(&mut self)
        ensures
            final(self)@ == old(self)@.upgraded(),
    {
        if !self.is_gesture() {
            let mut map: DirectionMap = OrderedMap::new();
            let _ = map.insert(GestureDirection::Click, self.click_action());
            *self = Binding::Gesture(map);
        }
    }

    /// Give every unbound direction of a direction map its default.
    pub fn fill_gesture_defaults(&mut self)
        ensures
            final(self)@ == old(self)@.filled(),
    {
        match self {
            Binding::Gesture(map) => {
                map.absorb(default_direction_map());
            },
            _ => {},
        }
    }

    /// Turn a direction map into its click, or into `default` where it has none.
    pub fn demote_to_single(&mut self, default: Action)
        ensures
            final(self)@ == old(self)@.demoted(default@),
    {
        let click = match self {
            Binding::Gesture(map) => Some(
                match map.get(&GestureDirection::Click) {
                    Some(action) => action.replicate(),
                    None => default,
                },
            ),
            _ => None,
        };
        if let Some(action) = click {
            *self = Binding::Single(action);
        }
    }
}

/// A control that nothing is bound to does what it is called: a click clicks,
/// the side buttons go back and forward, and what tilts or turns to a side
/// scrolls to that side. A touchpad trigger does nothing until it is bound.
pub proof fn law_a_default_goes_with_its_control(button: ButtonId)
    ensures
        button is LeftClick || button is RightClick || button is MiddleClick
            ==> default_action(button)@.label() == button.label_text(),
        button is Back || button is Forward ==> default_action(button)@.label() == "Browser "@
            + button.label_text(),
        button is WheelTiltLeft || button is ThumbwheelScrollUp
            ==> default_action(button)@.label() == "Scroll Left"@,
        button is WheelTiltRight || button is ThumbwheelScrollDown
            ==> default_action(button)@.label() == "Scroll Right"@,
        button is DpiToggle ==> default_action(button)@.label() == "Cycle DPI Presets"@,
        button is HapticPanel ==> default_action(button)@.label() == "Actions Ring"@,
        button is GestureButton ==> default_action(button)@.label() == "Mission Control"@,
        button is Thumbwheel || button.touchpad() ==> default_action(button)@.label()
            == "Do Nothing"@,
        default_shape(button) is Gesture <==> button is GestureButton,
        !(button is GestureButton) ==> default_shape(button).click() == default_action(button)@,
{
    reveal_strlit("Browser ");
    reveal_strlit("Back");
    reveal_strlit("Forward");
    reveal_strlit("Browser Back");
    reveal_strlit("Browser Forward");
    assert("Browser Back"@ =~= "Browser "@ + "Back"@);
    assert("Browser Forward"@ =~= "Browser "@ + "Forward"@);
}

/// A swipe that nothing is bound to goes to the desktop on its side, up to the
/// overview, or down to the desktop itself.
pub proof fn law_a_default_swipe_goes_its_way(direction: GestureDirection)
    ensures
        default_directions().contains_key(direction),
        direction is Left ==> default_directions()[direction].label() == "Previous Desktop"@,
        direction is Right ==> default_directions()[direction].label() == "Next Desktop"@,
        direction is Up ==> default_directions()[direction].label() == "Mission Control"@,
        direction is Down ==> default_directions()[direction].label() == "Show Desktop"@,
        direction is Click ==> default_directions()[direction].label() == "App Exposé"@,
{
}

/// A plain press is the action itself, the short one of two, or the click of a
/// direction map; a map without a click does nothing. Turning a binding into a
/// direction map and back keeps the press, and fills only what was not bound.
pub proof fn law_a_press_survives_every_shape(
    binding: BindingModel,
    action: ActionModel,
    other: ActionModel,
    map: Map<GestureDirection, ActionModel>,
    direction: GestureDirection,
)
    ensures
        BindingModel::Single(action).click() == action,
        (BindingModel::LongPress { short: action, long: other }).click() == action,
        BindingModel::Gesture(map.insert(GestureDirection::Click, action)).click() == action,
        BindingModel::Gesture(map.remove(GestureDirection::Click)).click().label()
            == "Do Nothing"@,
        binding.upgraded() is Gesture,
        binding.upgraded().click() == binding.click(),
        binding is Gesture ==> binding.upgraded() == binding,
        !(binding is Gesture) && !(direction is Click) ==> !binding.upgraded()->Gesture_0
            .contains_key(direction),
        binding.upgraded().filled() matches BindingModel::Gesture(filled)
            && filled.contains_key(direction),
        binding is Gesture && binding->Gesture_0.contains_key(direction)
            ==> binding.filled()->Gesture_0[direction] == binding->Gesture_0[direction],
        binding is Gesture && !binding->Gesture_0.contains_key(direction)
            ==> binding.filled()->Gesture_0[direction] == default_gesture(direction)@,
        !(binding is Gesture) ==> binding.filled() == binding && binding.demoted(action)
            == binding,
        !(binding.demoted(action) is Gesture),
        BindingModel::Gesture(map.insert(GestureDirection::Click, action)).demoted(other).click()
            == action,
        BindingModel::Gesture(map.remove(GestureDirection::Click)).demoted(other).click()
            == other,
{
}

}
