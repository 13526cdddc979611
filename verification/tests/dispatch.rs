//! What captured inputs come to.

use openlogi::agent::capture_plan::{plan_for_device, DeviceCapturePlan};
use openlogi::agent::dispatch::{Command, InputDispatcher, PressToken, TouchpadRuntime};
use openlogi::agent::input::CapturedInput;
use openlogi::agent::session::HidppSessionId;
use openlogi::binding::action::Action;
use openlogi::binding::button::{ButtonId, GestureDirection};
use openlogi::binding::shape::Binding;
use openlogi::config::settings::ThumbwheelSensitivity;
use openlogi::config::Config;
use openlogi::device::DeviceRoute;
use openlogi::ordered::OrderedMap;
use openlogi::touchpad::{TouchContact, TouchFrame};

fn bound(trigger: ButtonId, action: Action) -> OrderedMap<ButtonId, Action> {
    let mut bindings = OrderedMap::new();
    bindings.insert(trigger, action);
    bindings
}

#[test]
fn touchpad_stroke_freezes_bindings_from_its_first_frame() {
    let frame = TouchFrame::new(
        1_000,
        false,
        vec![
            TouchContact {
                id: 1,
                x_um: 10_000,
                y_um: 10_000,
            },
            TouchContact {
                id: 2,
                x_um: 20_000,
                y_um: 10_000,
            },
        ],
    )
    .expect("valid frame");
    let trigger = ButtonId::TouchpadTwoFingerTap;
    let mut runtime = TouchpadRuntime::default();
    let first_profile = bound(trigger, Action::Copy);
    let replacement_profile = bound(trigger, Action::Paste);

    assert_eq!(runtime.update(&frame, &first_profile, true), None);
    // A foreground-app change can replace the live plan before lift. The tap
    // must still resolve against the profile active when the stroke began.
    assert_eq!(
        runtime.end(true),
        Some((ButtonId::TouchpadTwoFingerTap, Action::Copy))
    );

    assert_eq!(runtime.update(&frame, &replacement_profile, true), None);
    assert_eq!(
        runtime.end(true),
        Some((ButtonId::TouchpadTwoFingerTap, Action::Paste))
    );
}

#[test]
fn diagnostic_touchpad_stroke_cannot_fire_if_management_enables_mid_stroke() {
    let frame = TouchFrame::new(
        1_000,
        false,
        vec![
            TouchContact {
                id: 1,
                x_um: 10_000,
                y_um: 10_000,
            },
            TouchContact {
                id: 2,
                x_um: 20_000,
                y_um: 10_000,
            },
        ],
    )
    .expect("valid frame");
    let trigger = ButtonId::TouchpadTwoFingerTap;
    let bindings = bound(trigger, Action::Copy);
    let mut runtime = TouchpadRuntime::default();

    assert_eq!(runtime.update(&frame, &bindings, false), None);
    assert_eq!(runtime.end(true), None);

    assert_eq!(runtime.update(&frame, &bindings, true), None);
    assert_eq!(runtime.end(true), Some((trigger, Action::Copy)));
}

fn session(epoch: u64) -> HidppSessionId {
    HidppSessionId::with_epoch("mouse-a", epoch)
}

fn plans() -> Vec<DeviceCapturePlan> {
    let mut config = Config::default();
    config.set_binding("mouse-a", ButtonId::Back, Binding::Single(Action::Copy));
    config.set_gesture_direction(
        "mouse-a",
        ButtonId::GestureButton,
        GestureDirection::Up,
        Action::MissionControl,
    );
    let route = DeviceRoute::Direct {
        vendor_id: 0x046d,
        product_id: 0xc548,
    };
    vec![plan_for_device(&config, "mouse-a", route, None, 0)]
}

#[test]
fn an_input_without_a_plan_is_left_alone() {
    let mut dispatcher = InputDispatcher::default();
    assert_eq!(
        dispatcher.dispatch(
            &HidppSessionId::with_epoch("mouse-b", 1),
            &CapturedInput::ButtonDown(ButtonId::Back),
            &plans(),
            true
        ),
        Command::Rest
    );
}

#[test]
fn a_button_carries_its_binding_unless_it_swipes() {
    let mut dispatcher = InputDispatcher::default();
    assert_eq!(
        dispatcher.dispatch(
            &session(1),
            &CapturedInput::ButtonDown(ButtonId::Back),
            &plans(),
            true
        ),
        Command::ButtonDown {
            session: session(1),
            button: ButtonId::Back,
            binding: Some(Binding::Single(Action::Copy)),
            swipes: false,
        }
    );
    assert_eq!(
        dispatcher.dispatch(
            &session(1),
            &CapturedInput::ButtonDown(ButtonId::GestureButton),
            &plans(),
            true
        ),
        Command::ButtonDown {
            session: session(1),
            button: ButtonId::GestureButton,
            binding: None,
            swipes: true,
        }
    );
    assert_eq!(
        dispatcher.dispatch(
            &session(1),
            &CapturedInput::ButtonPulse(ButtonId::Back),
            &plans(),
            true
        ),
        Command::ButtonPulse {
            session: session(1),
            button: ButtonId::Back,
            binding: Some(Binding::Single(Action::Copy)),
        }
    );
}

#[test]
fn a_swipe_counts_only_while_its_press_is_held() {
    let mut dispatcher = InputDispatcher::default();
    let swipe = CapturedInput::Gesture(ButtonId::GestureButton, GestureDirection::Up);
    let press = PressToken { id: 7 };
    assert_eq!(dispatcher.dispatch(&session(1), &swipe, &plans(), true), Command::Rest);
    dispatcher.note_press(&session(1), ButtonId::GestureButton, Some(press));
    assert_eq!(
        dispatcher.dispatch(&session(1), &swipe, &plans(), true),
        Command::WhilePressed {
            press,
            action: Action::MissionControl
        }
    );
    assert_eq!(
        dispatcher.dispatch(&session(2), &swipe, &plans(), true),
        Command::Rest,
        "another session has no such press"
    );
    dispatcher.dispatch(
        &session(1),
        &CapturedInput::ButtonUp(ButtonId::GestureButton),
        &plans(),
        true,
    );
    assert_eq!(dispatcher.dispatch(&session(1), &swipe, &plans(), true), Command::Rest);
    dispatcher.note_press(&session(1), ButtonId::GestureButton, Some(press));
    dispatcher.cancel_session(&session(1));
    assert_eq!(dispatcher.dispatch(&session(1), &swipe, &plans(), true), Command::Rest);
}

fn turns(dispatcher: &mut InputDispatcher, epoch: u64, increments: i16) -> Option<(ButtonId, bool)> {
    let input = CapturedInput::Scroll {
        increments,
        resolution: None,
    };
    match dispatcher.dispatch(&session(epoch), &input, &plans(), true) {
        Command::TurnWheel {
            button,
            begins,
            sensitivity,
            ..
        } => {
            assert_eq!(sensitivity, ThumbwheelSensitivity::default());
            Some((button, begins))
        }
        Command::Rest => None,
        other => panic!("a wheel turns, got {other:?}"),
    }
}

#[test]
fn a_wheel_begins_anew_in_every_session() {
    let mut dispatcher = InputDispatcher::default();
    assert_eq!(turns(&mut dispatcher, 7, 0), None);
    assert_eq!(
        turns(&mut dispatcher, 7, 3),
        Some((ButtonId::ThumbwheelScrollUp, true))
    );
    assert_eq!(
        turns(&mut dispatcher, 7, -3),
        Some((ButtonId::ThumbwheelScrollDown, false))
    );
    assert_eq!(
        turns(&mut dispatcher, 8, 1),
        Some((ButtonId::ThumbwheelScrollUp, true))
    );
    dispatcher.cancel_session(&session(7));
    assert_eq!(
        turns(&mut dispatcher, 8, 1),
        Some((ButtonId::ThumbwheelScrollUp, false)),
        "calling an old session off leaves its replacement alone"
    );
    let nobody: OrderedMap<String, Action> = OrderedMap::new();
    dispatcher.retain_devices(&nobody);
    assert_eq!(
        turns(&mut dispatcher, 8, 1),
        Some((ButtonId::ThumbwheelScrollUp, true))
    );
}
