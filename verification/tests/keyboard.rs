//! Keyboard sessions.

use openlogi::agent::dispatch::Command;
use openlogi::agent::input::CapturedInput;
use openlogi::agent::keyboard::{
    accepts_input, on_done, KeyboardManager, KeyboardSpec, KeyboardTarget, KeyboardTick,
    RunningKeyboardSession,
};
use openlogi::agent::session::{DoneAction, HidppSessionId};
use openlogi::binding::action::Action;
use openlogi::binding::button::ButtonId;
use openlogi::binding::shape::Binding;
use openlogi::device::DeviceRoute;
use openlogi::ordered::OrderedMap;

fn target() -> KeyboardTarget {
    KeyboardTarget {
        config_key: "keyboard-a".to_string(),
        route: DeviceRoute::Direct {
            vendor_id: 0x046d,
            product_id: 0xc548,
        },
        wanted: OrderedMap::new(),
    }
}

fn session_id(epoch: u64) -> HidppSessionId {
    HidppSessionId::with_epoch("keyboard-a", epoch)
}

fn draining_session(epoch: u64) -> RunningKeyboardSession {
    RunningKeyboardSession {
        id: session_id(epoch),
        target: target(),
        running: false,
    }
}

fn live_session(epoch: u64) -> RunningKeyboardSession {
    RunningKeyboardSession {
        running: true,
        ..draining_session(epoch)
    }
}

#[test]
fn keyboard_rearms_when_the_current_session_dies() {
    assert_eq!(
        on_done(&session_id(7), Some(&live_session(7))),
        DoneAction::Remove { unexpected: true }
    );
}

#[test]
fn keyboard_settles_a_draining_session_quietly() {
    assert_eq!(
        on_done(&session_id(7), Some(&draining_session(7))),
        DoneAction::Remove { unexpected: false }
    );
}

#[test]
fn ignores_stale_and_untracked_completions() {
    assert_eq!(
        on_done(&session_id(6), Some(&live_session(7))),
        DoneAction::Ignore
    );
    assert_eq!(on_done(&session_id(7), None), DoneAction::Ignore);
}

#[test]
fn keyboard_accepts_inputs_only_from_the_current_live_session() {
    assert!(accepts_input(&session_id(7), Some(&live_session(7))));
    assert!(
        !accepts_input(&session_id(6), Some(&live_session(7))),
        "a superseded session's queued input is stale"
    );
    assert!(
        !accepts_input(&session_id(7), Some(&draining_session(7))),
        "a draining session's queued input must not enter the replacement lifecycle"
    );
    assert!(!accepts_input(&session_id(7), None));
}

fn spec(action: Action) -> KeyboardSpec {
    let mut wanted = OrderedMap::new();
    wanted.insert(0x00c7, ButtonId::Back);
    let mut bindings = OrderedMap::new();
    bindings.insert(ButtonId::Back, Binding::Single(action));
    KeyboardSpec {
        config_key: "keyboard-a".to_string(),
        route: DeviceRoute::Direct {
            vendor_id: 0x046d,
            product_id: 0xc548,
        },
        wanted,
        bindings,
    }
}

#[test]
fn a_keyboard_session_runs_while_it_is_wanted() {
    let mut manager = KeyboardManager::default();
    let down = CapturedInput::ButtonDown(ButtonId::Back);
    assert_eq!(manager.tick(false, None, true), KeyboardTick::Keep);
    assert_eq!(manager.tick(false, Some(&spec(Action::Copy)), false), KeyboardTick::Keep);
    let id = match manager.tick(false, Some(&spec(Action::Copy)), true) {
        KeyboardTick::Start(id) => id,
        other => panic!("it starts, got {other:?}"),
    };
    assert_eq!(
        manager.tick(false, Some(&spec(Action::Paste)), true),
        KeyboardTick::Keep,
        "what keys do may change while it runs"
    );
    assert_eq!(
        manager.handle_input(&id, &down, false, Some(&spec(Action::Paste))),
        Command::ButtonDown {
            session: HidppSessionId::with_epoch("keyboard-a", id.epoch()),
            button: ButtonId::Back,
            binding: Some(Binding::Single(Action::Paste)),
            swipes: false,
        }
    );
    assert!(matches!(
        manager.handle_input(&id, &down, true, Some(&spec(Action::Paste))),
        Command::Cancel { .. }
    ));
    assert!(matches!(manager.tick(true, Some(&spec(Action::Copy)), true), KeyboardTick::Stop(_)));
    assert_eq!(
        manager.tick(false, Some(&spec(Action::Copy)), true),
        KeyboardTick::Keep,
        "the old one has not ended"
    );
    assert_eq!(manager.handle_done(&id), DoneAction::Remove { unexpected: false });
    assert_eq!(manager.handle_done(&id), DoneAction::Ignore);
    assert!(matches!(
        manager.tick(false, Some(&spec(Action::Copy)), true),
        KeyboardTick::Start(_)
    ));
}
