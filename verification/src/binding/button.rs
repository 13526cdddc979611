//! Rebindable controls and the directions of a held-button swipe.

use vstd::prelude::*;

use crate::ordered::{KeyOrder, OrderedKey, Replicate, Same};

verus! {

/// A control that can carry a binding.
#[derive(Clone, Copy, Debug, PartialEq, Eq, PartialOrd, Ord, Hash, Structural)]
pub enum ButtonId {
    /// The primary button.
    LeftClick,
    /// The secondary button.
    RightClick,
    /// The wheel click.
    MiddleClick,
    /// The rear side button.
    Back,
    /// The front side button.
    Forward,
    /// The button behind the wheel.
    DpiToggle,
    /// A tap on the thumb wheel.
    Thumbwheel,
    /// The dedicated gesture button under the thumb.
    GestureButton,
    /// The thumb wheel turned up.
    ThumbwheelScrollUp,
    /// The thumb wheel turned down.
    ThumbwheelScrollDown,
    /// The haptic panel under the thumb.
    HapticPanel,
    /// The main wheel tilted left.
    WheelTiltLeft,
    /// The main wheel tilted right.
    WheelTiltRight,
    /// Touchpad gesture: 2-finger tap.
    TouchpadTwoFingerTap,
    /// Touchpad gesture: 2-finger pinch in.
    TouchpadTwoFingerPinchIn,
    /// Touchpad gesture: 2-finger pinch out.
    TouchpadTwoFingerPinchOut,
    /// Touchpad gesture: 3-finger tap.
    TouchpadThreeFingerTap,
    /// Touchpad gesture: 3-finger swipe up.
    TouchpadThreeFingerSwipeUp,
    /// Touchpad gesture: 3-finger swipe down.
    TouchpadThreeFingerSwipeDown,
    /// Touchpad gesture: 3-finger swipe left.
    TouchpadThreeFingerSwipeLeft,
    /// Touchpad gesture: 3-finger swipe right.
    TouchpadThreeFingerSwipeRight,
    /// Touchpad gesture: 4-finger tap.
    TouchpadFourFingerTap,
    /// Touchpad gesture: 4-finger swipe up.
    TouchpadFourFingerSwipeUp,
    /// Touchpad gesture: 4-finger swipe down.
    TouchpadFourFingerSwipeDown,
    /// Touchpad gesture: 4-finger swipe left.
    TouchpadFourFingerSwipeLeft,
    /// Touchpad gesture: 4-finger swipe right.
    TouchpadFourFingerSwipeRight,
    /// Touchpad gesture: 4-finger pinch in.
    TouchpadFourFingerPinchIn,
    /// Touchpad gesture: 4-finger pinch out.
    TouchpadFourFingerPinchOut,
}

impl ButtonId {
    /// Every control, in declaration order.
    pub const ALL: [ButtonId; 28] = [
        ButtonId::LeftClick,
        ButtonId::RightClick,
        ButtonId::MiddleClick,
        ButtonId::Back,
        ButtonId::Forward,
        ButtonId::DpiToggle,
        ButtonId::Thumbwheel,
        ButtonId::GestureButton,
        ButtonId::ThumbwheelScrollUp,
        ButtonId::ThumbwheelScrollDown,
        ButtonId::HapticPanel,
        ButtonId::WheelTiltLeft,
        ButtonId::WheelTiltRight,
        ButtonId::TouchpadTwoFingerTap,
        ButtonId::TouchpadTwoFingerPinchIn,
        ButtonId::TouchpadTwoFingerPinchOut,
        ButtonId::TouchpadThreeFingerTap,
        ButtonId::TouchpadThreeFingerSwipeUp,
        ButtonId::TouchpadThreeFingerSwipeDown,
        ButtonId::TouchpadThreeFingerSwipeLeft,
        ButtonId::TouchpadThreeFingerSwipeRight,
        ButtonId::TouchpadFourFingerTap,
        ButtonId::TouchpadFourFingerSwipeUp,
        ButtonId::TouchpadFourFingerSwipeDown,
        ButtonId::TouchpadFourFingerSwipeLeft,
        ButtonId::TouchpadFourFingerSwipeRight,
        ButtonId::TouchpadFourFingerPinchIn,
        ButtonId::TouchpadFourFingerPinchOut,
    ];

    /// The position of a control in [`ButtonId::ALL`].
    pub open spec fn position(self) -> int {
        match self {
            ButtonId::LeftClick => 0,
            ButtonId::RightClick => 1,
            ButtonId::MiddleClick => 2,
            ButtonId::Back => 3,
            ButtonId::Forward => 4,
            ButtonId::DpiToggle => 5,
            ButtonId::Thumbwheel => 6,
            ButtonId::GestureButton => 7,
            ButtonId::ThumbwheelScrollUp => 8,
            ButtonId::ThumbwheelScrollDown => 9,
            ButtonId::HapticPanel => 10,
            ButtonId::WheelTiltLeft => 11,
            ButtonId::WheelTiltRight => 12,
            ButtonId::TouchpadTwoFingerTap => 13,
            ButtonId::TouchpadTwoFingerPinchIn => 14,
            ButtonId::TouchpadTwoFingerPinchOut => 15,
            ButtonId::TouchpadThreeFingerTap => 16,
            ButtonId::TouchpadThreeFingerSwipeUp => 17,
            ButtonId::TouchpadThreeFingerSwipeDown => 18,
            ButtonId::TouchpadThreeFingerSwipeLeft => 19,
            ButtonId::TouchpadThreeFingerSwipeRight => 20,
            ButtonId::TouchpadFourFingerTap => 21,
            ButtonId::TouchpadFourFingerSwipeUp => 22,
            ButtonId::TouchpadFourFingerSwipeDown => 23,
            ButtonId::TouchpadFourFingerSwipeLeft => 24,
            ButtonId::TouchpadFourFingerSwipeRight => 25,
            ButtonId::TouchpadFourFingerPinchIn => 26,
            ButtonId::TouchpadFourFingerPinchOut => 27,
        }
    }

    /// The name shown for a control.
    pub open spec fn label_text(self) -> Seq<char> {
        match self {
            ButtonId::LeftClick => "Left Click"@,
            ButtonId::RightClick => "Right Click"@,
            ButtonId::MiddleClick => "Middle Click"@,
            ButtonId::Back => "Back"@,
            ButtonId::Forward => "Forward"@,
            ButtonId::DpiToggle => "DPI Toggle"@,
            ButtonId::Thumbwheel => "Thumb Wheel"@,
            ButtonId::GestureButton => "Gesture Button"@,
            ButtonId::ThumbwheelScrollUp => "Thumb Wheel Up"@,
            ButtonId::ThumbwheelScrollDown => "Thumb Wheel Down"@,
            ButtonId::HapticPanel => "Haptic Panel"@,
            ButtonId::WheelTiltLeft => "Wheel Tilt Left"@,
            ButtonId::WheelTiltRight => "Wheel Tilt Right"@,
            ButtonId::TouchpadTwoFingerTap => "2-Finger Tap"@,
            ButtonId::TouchpadTwoFingerPinchIn => "2-Finger Pinch In"@,
            ButtonId::TouchpadTwoFingerPinchOut => "2-Finger Pinch Out"@,
            ButtonId::TouchpadThreeFingerTap => "3-Finger Tap"@,
            ButtonId::TouchpadThreeFingerSwipeUp => "3-Finger Swipe Up"@,
            ButtonId::TouchpadThreeFingerSwipeDown => "3-Finger Swipe Down"@,
            ButtonId::TouchpadThreeFingerSwipeLeft => "3-Finger Swipe Left"@,
            ButtonId::TouchpadThreeFingerSwipeRight => "3-Finger Swipe Right"@,
            ButtonId::TouchpadFourFingerTap => "4-Finger Tap"@,
            ButtonId::TouchpadFourFingerSwipeUp => "4-Finger Swipe Up"@,
            ButtonId::TouchpadFourFingerSwipeDown => "4-Finger Swipe Down"@,
            ButtonId::TouchpadFourFingerSwipeLeft => "4-Finger Swipe Left"@,
            ButtonId::TouchpadFourFingerSwipeRight => "4-Finger Swipe Right"@,
            ButtonId::TouchpadFourFingerPinchIn => "4-Finger Pinch In"@,
            ButtonId::TouchpadFourFingerPinchOut => "4-Finger Pinch Out"@,
        }
    }

    /// Whether a control is one of the touchpad's gesture triggers.
    pub open spec fn touchpad(self) -> bool {
        self.position() >= ButtonId::TouchpadTwoFingerTap.position()
    }

    fn rank(self) -> (rank: u8)
        ensures
            rank == self.position(),
    {
        match self {
            ButtonId::LeftClick => 0,
            ButtonId::RightClick => 1,
            ButtonId::MiddleClick => 2,
            ButtonId::Back => 3,
            ButtonId::Forward => 4,
            ButtonId::DpiToggle => 5,
            ButtonId::Thumbwheel => 6,
            ButtonId::GestureButton => 7,
            ButtonId::ThumbwheelScrollUp => 8,
            ButtonId::ThumbwheelScrollDown => 9,
            ButtonId::HapticPanel => 10,
            ButtonId::WheelTiltLeft => 11,
            ButtonId::WheelTiltRight => 12,
            ButtonId::TouchpadTwoFingerTap => 13,
            ButtonId::TouchpadTwoFingerPinchIn => 14,
            ButtonId::TouchpadTwoFingerPinchOut => 15,
            ButtonId::TouchpadThreeFingerTap => 16,
            ButtonId::TouchpadThreeFingerSwipeUp => 17,
            ButtonId::TouchpadThreeFingerSwipeDown => 18,
            ButtonId::TouchpadThreeFingerSwipeLeft => 19,
            ButtonId::TouchpadThreeFingerSwipeRight => 20,
            ButtonId::TouchpadFourFingerTap => 21,
            ButtonId::TouchpadFourFingerSwipeUp => 22,
            ButtonId::TouchpadFourFingerSwipeDown => 23,
            ButtonId::TouchpadFourFingerSwipeLeft => 24,
            ButtonId::TouchpadFourFingerSwipeRight => 25,
            ButtonId::TouchpadFourFingerPinchIn => 26,
            ButtonId::TouchpadFourFingerPinchOut => 27,
        }
    }

    /// The name shown for this control.
    pub fn label(self) -> (label: &'static str)
        ensures
            label@ == self.label_text(),
    {
        match self {
            ButtonId::LeftClick => "Left Click",
            ButtonId::RightClick => "Right Click",
            ButtonId::MiddleClick => "Middle Click",
            ButtonId::Back => "Back",
            ButtonId::Forward => "Forward",
            ButtonId::DpiToggle => "DPI Toggle",
            ButtonId::Thumbwheel => "Thumb Wheel",
            ButtonId::GestureButton => "Gesture Button",
            ButtonId::ThumbwheelScrollUp => "Thumb Wheel Up",
            ButtonId::ThumbwheelScrollDown => "Thumb Wheel Down",
            ButtonId::HapticPanel => "Haptic Panel",
            ButtonId::WheelTiltLeft => "Wheel Tilt Left",
            ButtonId::WheelTiltRight => "Wheel Tilt Right",
            ButtonId::TouchpadTwoFingerTap => "2-Finger Tap",
            ButtonId::TouchpadTwoFingerPinchIn => "2-Finger Pinch In",
            ButtonId::TouchpadTwoFingerPinchOut => "2-Finger Pinch Out",
            ButtonId::TouchpadThreeFingerTap => "3-Finger Tap",
            ButtonId::TouchpadThreeFingerSwipeUp => "3-Finger Swipe Up",
            ButtonId::TouchpadThreeFingerSwipeDown => "3-Finger Swipe Down",
            ButtonId::TouchpadThreeFingerSwipeLeft => "3-Finger Swipe Left",
            ButtonId::TouchpadThreeFingerSwipeRight => "3-Finger Swipe Right",
            ButtonId::TouchpadFourFingerTap => "4-Finger Tap",
            ButtonId::TouchpadFourFingerSwipeUp => "4-Finger Swipe Up",
            ButtonId::TouchpadFourFingerSwipeDown => "4-Finger Swipe Down",
            ButtonId::TouchpadFourFingerSwipeLeft => "4-Finger Swipe Left",
            ButtonId::TouchpadFourFingerSwipeRight => "4-Finger Swipe Right",
            ButtonId::TouchpadFourFingerPinchIn => "4-Finger Pinch In",
            ButtonId::TouchpadFourFingerPinchOut => "4-Finger Pinch Out",
        }
    }

    /// Whether this is one of the touchpad's gesture triggers.
    pub fn is_touchpad_gesture(self) -> (yes: bool)
        ensures
            yes == self.touchpad(),
    {
        self.rank() >= ButtonId::TouchpadTwoFingerTap.rank()
    }

    /// Whether the operating system's mouse hook sees this control's press.
    pub open spec fn os_hook(self) -> bool {
        self is MiddleClick || self is Back || self is Forward
    }

    /// Whether this control can report movement while it is held, over HID++.
    pub open spec fn hidpp_gesture_source(self) -> bool {
        self is GestureButton || self is HapticPanel
    }

    /// Whether the operating system's mouse hook sees this control's press.
    pub fn is_os_hook_button(self) -> (yes: bool)
        ensures
            yes == self.os_hook(),
    {
        matches!(self, ButtonId::MiddleClick | ButtonId::Back | ButtonId::Forward)
    }

    /// Whether this control can report movement while it is held, over HID++.
    pub fn is_hidpp_gesture_source(self) -> (yes: bool)
        ensures
            yes == self.hidpp_gesture_source(),
    {
        matches!(self, ButtonId::GestureButton | ButtonId::HapticPanel)
    }

    /// Two controls at one position are the same control.
    pub proof fn position_injective(a: ButtonId, b: ButtonId)
        ensures
            a.position() == b.position() ==> a == b,
            0 <= a.position() < ButtonId::ALL@.len(),
            ButtonId::ALL@[a.position()] == a,
    {
    }
}

/// Which way a button was swiped while held; a press without a swipe is a click.
#[derive(Clone, Copy, Debug, PartialEq, Eq, PartialOrd, Ord, Hash, Structural)]
pub enum GestureDirection {
    /// Swiped up.
    Up,
    /// Swiped down.
    Down,
    /// Swiped left.
    Left,
    /// Swiped right.
    Right,
    /// Pressed and released in place.
    Click,
}

impl GestureDirection {
    /// Every direction, in declaration order.
    pub const ALL: [GestureDirection; 5] = [
        GestureDirection::Up,
        GestureDirection::Down,
        GestureDirection::Left,
        GestureDirection::Right,
        GestureDirection::Click,
    ];

    /// The position of a direction in [`GestureDirection::ALL`].
    pub open spec fn position(self) -> int {
        match self {
            GestureDirection::Up => 0,
            GestureDirection::Down => 1,
            GestureDirection::Left => 2,
            GestureDirection::Right => 3,
            GestureDirection::Click => 4,
        }
    }

    fn rank(self) -> (rank: u8)
        ensures
            rank == self.position(),
    {
        match self {
            GestureDirection::Up => 0,
            GestureDirection::Down => 1,
            GestureDirection::Left => 2,
            GestureDirection::Right => 3,
            GestureDirection::Click => 4,
        }
    }
}

impl View for ButtonId {
    type V = ButtonId;

    open spec fn view(&self) -> ButtonId {
        *self
    }
}

impl Replicate for ButtonId {
    fn replicate(&self) -> (copy: Self) {
        *self
    }
}

impl Same for ButtonId {
    fn same(&self, other: &Self) -> (same: bool) {
        *self == *other
    }
}

impl OrderedKey for ButtonId {
    type Probe = ButtonId;

    open spec fn before(a: ButtonId, b: ButtonId) -> bool {
        a.position() < b.position()
    }

    proof fn before_irreflexive(a: ButtonId) {
    }

    proof fn before_transitive(a: ButtonId, b: ButtonId, c: ButtonId) {
    }

    proof fn before_total(a: ButtonId, b: ButtonId) {
    }

    fn order_against(&self, probe: &ButtonId) -> (order: KeyOrder) {
        let own: u8 = self.rank();
        let other: u8 = probe.rank();
        if own < other {
            KeyOrder::Before
        } else if own > other {
            KeyOrder::After
        } else {
            KeyOrder::Same
        }
    }

    fn as_probe(&self) -> (probe: &ButtonId) {
        self
    }
}

impl View for GestureDirection {
    type V = GestureDirection;

    open spec fn view(&self) -> GestureDirection {
        *self
    }
}

impl Replicate for GestureDirection {
    fn replicate(&self) -> (copy: Self) {
        *self
    }
}

impl Same for GestureDirection {
    fn same(&self, other: &Self) -> (same: bool) {
        *self == *other
    }
}

impl OrderedKey for GestureDirection {
    type Probe = GestureDirection;

    open spec fn before(a: GestureDirection, b: GestureDirection) -> bool {
        a.position() < b.position()
    }

    proof fn before_irreflexive(a: GestureDirection) {
    }

    proof fn before_transitive(a: GestureDirection, b: GestureDirection, c: GestureDirection) {
    }

    proof fn before_total(a: GestureDirection, b: GestureDirection) {
    }

    fn order_against(&self, probe: &GestureDirection) -> (order: KeyOrder) {
        let own: u8 = self.rank();
        let other: u8 = probe.rank();
        if own < other {
            KeyOrder::Before
        } else if own > other {
            KeyOrder::After
        } else {
            KeyOrder::Same
        }
    }

    fn as_probe(&self) -> (probe: &GestureDirection) {
        self
    }
}

/// Every control is called by its own name, and by that of no other.
pub proof fn law_a_control_is_called_by_its_own_name(button: ButtonId)
    ensures
        button.label_text() == "Left Click"@ <==> button is LeftClick,
        button.label_text() == "Right Click"@ <==> button is RightClick,
        button.label_text() == "Middle Click"@ <==> button is MiddleClick,
        button.label_text() == "Back"@ <==> button is Back,
        button.label_text() == "Forward"@ <==> button is Forward,
        button.label_text() == "DPI Toggle"@ <==> button is DpiToggle,
        button.label_text() == "Thumb Wheel"@ <==> button is Thumbwheel,
        button.label_text() == "Gesture Button"@ <==> button is GestureButton,
        button.label_text() == "Thumb Wheel Up"@ <==> button is ThumbwheelScrollUp,
        button.label_text() == "Thumb Wheel Down"@ <==> button is ThumbwheelScrollDown,
        button.label_text() == "Haptic Panel"@ <==> button is HapticPanel,
        button.label_text() == "Wheel Tilt Left"@ <==> button is WheelTiltLeft,
        button.label_text() == "Wheel Tilt Right"@ <==> button is WheelTiltRight,
        button.label_text() == "2-Finger Tap"@ <==> button is TouchpadTwoFingerTap,
        button.label_text() == "2-Finger Pinch In"@ <==> button is TouchpadTwoFingerPinchIn,
        button.label_text() == "2-Finger Pinch Out"@ <==> button is TouchpadTwoFingerPinchOut,
        button.label_text() == "3-Finger Tap"@ <==> button is TouchpadThreeFingerTap,
        button.label_text() == "3-Finger Swipe Up"@ <==> button is TouchpadThreeFingerSwipeUp,
        button.label_text() == "3-Finger Swipe Down"@ <==> button is TouchpadThreeFingerSwipeDown,
        button.label_text() == "3-Finger Swipe Left"@ <==> button is TouchpadThreeFingerSwipeLeft,
        button.label_text() == "3-Finger Swipe Right"@ <==> button is TouchpadThreeFingerSwipeRight,
        button.label_text() == "4-Finger Tap"@ <==> button is TouchpadFourFingerTap,
        button.label_text() == "4-Finger Swipe Up"@ <==> button is TouchpadFourFingerSwipeUp,
        button.label_text() == "4-Finger Swipe Down"@ <==> button is TouchpadFourFingerSwipeDown,
        button.label_text() == "4-Finger Swipe Left"@ <==> button is TouchpadFourFingerSwipeLeft,
        button.label_text() == "4-Finger Swipe Right"@ <==> button is TouchpadFourFingerSwipeRight,
        button.label_text() == "4-Finger Pinch In"@ <==> button is TouchpadFourFingerPinchIn,
        button.label_text() == "4-Finger Pinch Out"@ <==> button is TouchpadFourFingerPinchOut,
{
    reveal_strlit("Left Click");
    reveal_strlit("Right Click");
    reveal_strlit("Middle Click");
    reveal_strlit("Back");
    reveal_strlit("Forward");
    reveal_strlit("DPI Toggle");
    reveal_strlit("Thumb Wheel");
    reveal_strlit("Gesture Button");
    reveal_strlit("Thumb Wheel Up");
    reveal_strlit("Thumb Wheel Down");
    reveal_strlit("Haptic Panel");
    reveal_strlit("Wheel Tilt Left");
    reveal_strlit("Wheel Tilt Right");
    reveal_strlit("2-Finger Tap");
    reveal_strlit("2-Finger Pinch In");
    reveal_strlit("2-Finger Pinch Out");
    reveal_strlit("3-Finger Tap");
    reveal_strlit("3-Finger Swipe Up");
    reveal_strlit("3-Finger Swipe Down");
    reveal_strlit("3-Finger Swipe Left");
    reveal_strlit("3-Finger Swipe Right");
    reveal_strlit("4-Finger Tap");
    reveal_strlit("4-Finger Swipe Up");
    reveal_strlit("4-Finger Swipe Down");
    reveal_strlit("4-Finger Swipe Left");
    reveal_strlit("4-Finger Swipe Right");
    reveal_strlit("4-Finger Pinch In");
    reveal_strlit("4-Finger Pinch Out");
    assert("Left Click"@.len() == 10);
    assert("Right Click"@.len() == 11);
    assert("Middle Click"@.len() == 12);
    assert("Back"@.len() == 4);
    assert("Forward"@.len() == 7);
    assert("DPI Toggle"@.len() == 10);
    assert("Thumb Wheel"@.len() == 11);
    assert("Gesture Button"@.len() == 14);
    assert("Thumb Wheel Up"@.len() == 14);
    assert("Thumb Wheel Down"@.len() == 16);
    assert("Haptic Panel"@.len() == 12);
    assert("Wheel Tilt Left"@.len() == 15);
    assert("Wheel Tilt Right"@.len() == 16);
    assert("2-Finger Tap"@.len() == 12);
    assert("2-Finger Pinch In"@.len() == 17);
    assert("2-Finger Pinch Out"@.len() == 18);
    assert("3-Finger Tap"@.len() == 12);
    assert("3-Finger Swipe Up"@.len() == 17);
    assert("3-Finger Swipe Down"@.len() == 19);
    assert("3-Finger Swipe Left"@.len() == 19);
    assert("3-Finger Swipe Right"@.len() == 20);
    assert("4-Finger Tap"@.len() == 12);
    assert("4-Finger Swipe Up"@.len() == 17);
    assert("4-Finger Swipe Down"@.len() == 19);
    assert("4-Finger Swipe Left"@.len() == 19);
    assert("4-Finger Swipe Right"@.len() == 20);
    assert("4-Finger Pinch In"@.len() == 17);
    assert("4-Finger Pinch Out"@.len() == 18);
    assert("Left Click"@[0] != "DPI Toggle"@[0]);
    assert("Right Click"@[0] != "Thumb Wheel"@[0]);
    assert("Middle Click"@[0] != "Haptic Panel"@[0]);
    assert("Middle Click"@[0] != "2-Finger Tap"@[0]);
    assert("Middle Click"@[0] != "3-Finger Tap"@[0]);
    assert("Middle Click"@[0] != "4-Finger Tap"@[0]);
    assert("Gesture Button"@[0] != "Thumb Wheel Up"@[0]);
    assert("Thumb Wheel Down"@[0] != "Wheel Tilt Right"@[0]);
    assert("Haptic Panel"@[0] != "2-Finger Tap"@[0]);
    assert("Haptic Panel"@[0] != "3-Finger Tap"@[0]);
    assert("Haptic Panel"@[0] != "4-Finger Tap"@[0]);
    assert("2-Finger Tap"@[0] != "3-Finger Tap"@[0]);
    assert("2-Finger Tap"@[0] != "4-Finger Tap"@[0]);
    assert("2-Finger Pinch In"@[0] != "3-Finger Swipe Up"@[0]);
    assert("2-Finger Pinch In"@[0] != "4-Finger Swipe Up"@[0]);
    assert("2-Finger Pinch In"@[0] != "4-Finger Pinch In"@[0]);
    assert("2-Finger Pinch Out"@[0] != "4-Finger Pinch Out"@[0]);
    assert("3-Finger Tap"@[0] != "4-Finger Tap"@[0]);
    assert("3-Finger Swipe Up"@[0] != "4-Finger Swipe Up"@[0]);
    assert("3-Finger Swipe Up"@[0] != "4-Finger Pinch In"@[0]);
    assert("3-Finger Swipe Down"@[15] != "3-Finger Swipe Left"@[15]);
    assert("3-Finger Swipe Down"@[0] != "4-Finger Swipe Down"@[0]);
    assert("3-Finger Swipe Down"@[0] != "4-Finger Swipe Left"@[0]);
    assert("3-Finger Swipe Left"@[0] != "4-Finger Swipe Down"@[0]);
    assert("3-Finger Swipe Left"@[0] != "4-Finger Swipe Left"@[0]);
    assert("3-Finger Swipe Right"@[0] != "4-Finger Swipe Right"@[0]);
    assert("4-Finger Swipe Up"@[9] != "4-Finger Pinch In"@[9]);
    assert("4-Finger Swipe Down"@[15] != "4-Finger Swipe Left"@[15]);
}

}
