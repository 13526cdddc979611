//! Events that capture sessions report.

use vstd::prelude::*;

use crate::binding::button::{ButtonId, GestureDirection};
use crate::touchpad::{FrameModel, TouchFrame};

verus! {

/// How finely a wheel reports its turns, where the device said so.
#[derive(Clone, Copy, Debug, PartialEq, Eq, Structural)]
pub struct WheelResolution {
    /// Increments per turn in native mode.
    pub native: u16,
    /// Increments per turn in diverted mode.
    pub diverted: u16,
}

/// One event of a capture session.
#[derive(Debug, PartialEq, Eq)]
pub enum CapturedInput {
    /// A control was swiped, or pressed without a swipe.
    Gesture(ButtonId, GestureDirection),
    /// A control went down.
    ButtonDown(ButtonId),
    /// A control came up.
    ButtonUp(ButtonId),
    /// A control was pressed, and says nothing of its release.
    ButtonPulse(ButtonId),
    /// The thumb wheel turned.
    Scroll { increments: i16, resolution: Option<WheelResolution> },
    /// Fingers rest on or move over the touchpad.
    TouchpadFrame(TouchFrame),
    /// The last finger left the touchpad.
    TouchpadEnd,
    /// The touchpad's stroke came to nothing.
    TouchpadCancel,
    /// Frames of the touchpad were lost.
    TouchpadDroppedFrames(u64),
}

/// The model of a [`CapturedInput`].
pub ghost enum InputModel {
    Gesture(ButtonId, GestureDirection),
    ButtonDown(ButtonId),
    ButtonUp(ButtonId),
    ButtonPulse(ButtonId),
    Scroll { increments: i16, resolution: Option<WheelResolution> },
    TouchpadFrame(FrameModel),
    TouchpadEnd,
    TouchpadCancel,
    TouchpadDroppedFrames(u64),
}

impl View for CapturedInput {
    type V = InputModel;

    open spec fn view(&self) -> InputModel {
        match self {
            CapturedInput::Gesture(button, direction) => InputModel::Gesture(*button, *direction),
            CapturedInput::ButtonDown(button) => InputModel::ButtonDown(*button),
            CapturedInput::ButtonUp(button) => InputModel::ButtonUp(*button),
            CapturedInput::ButtonPulse(button) => InputModel::ButtonPulse(*button),
            CapturedInput::Scroll { increments, resolution } => InputModel::Scroll {
                increments: *increments,
                resolution: *resolution,
            },
            CapturedInput::TouchpadFrame(frame) => InputModel::TouchpadFrame(frame@),
            CapturedInput::TouchpadEnd => InputModel::TouchpadEnd,
            CapturedInput::TouchpadCancel => InputModel::TouchpadCancel,
            CapturedInput::TouchpadDroppedFrames(count) => InputModel::TouchpadDroppedFrames(
                *count,
            ),
        }
    }
}

}
