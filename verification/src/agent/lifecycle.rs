//! Whether the agent stays, and whether it listens to the mouse.

use vstd::prelude::*;

verus! {

/// Who connected.
#[derive(Clone, Copy, Debug, PartialEq, Eq, Structural)]
pub enum ClientKind {
    /// The application's window.
    Gui,
    /// The Actions Ring.
    Overlay,
    /// A tool that looks for faults.
    Diagnostic,
    /// Anybody else.
    Other,
}

/// What happens to an agent that nobody wanted yet.
#[derive(Clone, Copy, Debug, PartialEq, Eq, Structural)]
pub enum GateEvent {
    /// Somebody said who it is.
    Client(ClientKind),
    /// The time to wait is over.
    Deadline,
    /// The system wants it gone.
    Shutdown,
    /// It was uninstalled.
    Uninstalled,
}

/// What such an agent does.
#[derive(Clone, Copy, Debug, PartialEq, Eq, Structural)]
pub enum GateStep {
    /// It goes to work.
    Arm,
    /// It waits on.
    Wait,
    /// It leaves.
    Leave,
}

/// How long an agent that nobody wanted yet waits.
pub const DORMANT_DEADLINE_SECONDS: u64 = 60;

/// Whether an agent waits at all: only where the system starts it at every login
/// and the user does not want that.
pub fn gate(login_trigger: bool, launch_at_login: bool) -> (step: GateStep)
    ensures
        step == (if login_trigger && !launch_at_login {
            GateStep::Wait
        } else {
            GateStep::Arm
        }),
{
    if login_trigger && !launch_at_login {
        GateStep::Wait
    } else {
        GateStep::Arm
    }
}

/// What an agent that waits does next: somebody who looks at devices makes it go
/// to work, anybody else is served without that.
pub fn gate_step(event: GateEvent) -> (step: GateStep)
    ensures
        step == match event {
            GateEvent::Client(ClientKind::Gui) => GateStep::Arm,
            GateEvent::Client(ClientKind::Diagnostic) => GateStep::Arm,
            GateEvent::Client(_) => GateStep::Wait,
            _ => GateStep::Leave,
        },
{
    match event {
        GateEvent::Client(ClientKind::Gui) => GateStep::Arm,
        GateEvent::Client(ClientKind::Diagnostic) => GateStep::Arm,
        GateEvent::Client(_) => GateStep::Wait,
        _ => GateStep::Leave,
    }
}

/// Whether the mouse hook is there, and may be.
#[derive(Clone, Copy, Debug, PartialEq, Eq, Structural)]
pub struct HookState {
    /// Whether the system allows it.
    pub accessibility_granted: bool,
    /// Whether it is there.
    pub installed: bool,
    /// Whether the user wants it.
    pub capture_mouse_events: bool,
}

/// What to do about the mouse hook.
#[derive(Clone, Copy, Debug, PartialEq, Eq, Structural)]
pub struct HookChange {
    /// Take it away, and drop what it holds.
    pub stop: bool,
    /// Try to put it there.
    pub start: bool,
}

impl HookState {
    /// What to do about the hook once the system allows it, or no longer does.
    pub open spec fn change(self, granted: bool) -> HookChange {
        HookChange {
            stop: !granted,
            start: granted && !self.installed && self.capture_mouse_events,
        }
    }

    /// What is known once that was done, where an attempt to put the hook there
    /// may have failed.
    pub open spec fn changed(self, granted: bool, started: bool) -> HookState {
        HookState {
            accessibility_granted: granted,
            installed: granted && (self.installed || (self.change(granted).start && started)),
            ..self
        }
    }

    /// What to do about the hook once the system allows it, or no longer does.
    pub fn on_accessibility(&self, granted: bool) -> (change: HookChange)
        ensures
            change == self.change(granted),
    {
        HookChange {
            stop: !granted,
            start: granted && !self.installed && self.capture_mouse_events,
        }
    }

    /// Take in that it was done, and whether an attempt to put the hook there
    /// worked.
    pub fn apply_accessibility(&mut self, granted: bool, started: bool)
        ensures
            *final(self) == old(self).changed(granted, started),
    {
        let change = self.on_accessibility(granted);
        self.accessibility_granted = granted;
        if change.stop {
            self.installed = false;
        }
        if change.start {
            self.installed = started;
        }
    }

    /// Whether to ask for permission: only where the user wants the hook and the
    /// system does not allow it.
    pub fn prompts(&self) -> (yes: bool)
        ensures
            yes == (self.capture_mouse_events && !self.accessibility_granted),
    {
        self.capture_mouse_events && !self.accessibility_granted
    }
}

/// What a watcher reports, as far as it changes what the agent does.
#[derive(Clone, Copy, Debug, PartialEq, Eq, Structural)]
pub enum WatcherEvent {
    /// Devices were looked for, after the system may have slept.
    Inventory { resumed: bool },
    /// Devices cannot be looked for.
    InventoryUnavailable,
    /// The system woke up.
    SystemWake,
    /// A camera is in use, or no longer is.
    Camera(bool),
    /// Another application came to the front, or not.
    Foreground { changed: bool },
    /// The system allows the mouse hook, or no longer does.
    Accessibility(bool),
    /// The system allows devices to be opened, or no longer does.
    InputMonitoring(bool),
    /// A watcher is gone.
    Lost(Watcher),
}

/// Which watcher is gone.
#[derive(Clone, Copy, Debug, PartialEq, Eq, Structural)]
pub enum Watcher {
    Inventory,
    Camera,
    App,
    Accessibility,
    InputMonitoring,
}

/// What the agent does about it.
#[derive(Clone, Copy, Debug, PartialEq, Eq, Structural)]
pub enum Directive {
    /// Nothing.
    Ignore,
    /// Take in the devices, restoring their settings where they may be lost.
    Refresh { restore: bool },
    /// Say that devices cannot be looked for.
    MarkInventoryUnavailable,
    /// Restore settings at the next look.
    RestoreAtNextRefresh,
    /// Light lamps by the camera.
    SetCameraActive(bool),
    /// Drop what buttons hold by the application that was in front.
    CancelButtons,
    /// Put the mouse hook there, or take it away.
    SetAccessibility(bool),
    /// Say whether devices can be opened.
    SetInputMonitoring(bool),
}

/// What the agent does about what a watcher reports. Without word from the
/// watcher of devices nobody would learn that none will be found.
pub fn apply_watcher(event: WatcherEvent) -> (directive: Directive)
    ensures
        directive == match event {
            WatcherEvent::Inventory { resumed } => Directive::Refresh { restore: resumed },
            WatcherEvent::InventoryUnavailable => Directive::MarkInventoryUnavailable,
            WatcherEvent::SystemWake => Directive::RestoreAtNextRefresh,
            WatcherEvent::Camera(active) => Directive::SetCameraActive(active),
            WatcherEvent::Foreground { changed } => if changed {
                Directive::CancelButtons
            } else {
                Directive::Ignore
            },
            WatcherEvent::Accessibility(granted) => Directive::SetAccessibility(granted),
            WatcherEvent::InputMonitoring(granted) => Directive::SetInputMonitoring(granted),
            WatcherEvent::Lost(Watcher::Inventory) => Directive::MarkInventoryUnavailable,
            WatcherEvent::Lost(_) => Directive::Ignore,
        },
{
    match event {
        WatcherEvent::Inventory { resumed } => Directive::Refresh { restore: resumed },
        WatcherEvent::InventoryUnavailable => Directive::MarkInventoryUnavailable,
        WatcherEvent::SystemWake => Directive::RestoreAtNextRefresh,
        WatcherEvent::Camera(active) => Directive::SetCameraActive(active),
        WatcherEvent::Foreground { changed } => if changed {
            Directive::CancelButtons
        } else {
            Directive::Ignore
        },
        WatcherEvent::Accessibility(granted) => Directive::SetAccessibility(granted),
        WatcherEvent::InputMonitoring(granted) => Directive::SetInputMonitoring(granted),
        WatcherEvent::Lost(Watcher::Inventory) => Directive::MarkInventoryUnavailable,
        WatcherEvent::Lost(_) => Directive::Ignore,
    }
}

/// Whether to start over once the user was asked to allow devices to be opened:
/// only where it was not allowed before and is now. The user was not asked where
/// it was; and where asking failed there is no answer.
pub fn restarts_after_prompt(access_before: bool, access_after: Option<bool>) -> (yes: bool)
    ensures
        yes == (!access_before && access_after == Some(true)),
{
    match access_after {
        Some(granted) => !access_before && granted,
        None => false,
    }
}

/// What a press of the ring's trigger does.
#[derive(Clone, Copy, Debug, PartialEq, Eq, Structural)]
pub enum RingStep {
    /// It has closed the ring that was showing.
    Closed,
    /// It readies the haptics again, which a sleep may have cleared, and opens a
    /// ring.
    ArmAndOpen,
    /// Nothing: no device has a ring.
    Nothing,
}

/// What a press of the ring's trigger does: a second press closes the ring.
pub fn begin_action_ring(was_showing: bool, has_ring: bool) -> (step: RingStep)
    ensures
        step == if was_showing {
            RingStep::Closed
        } else if has_ring {
            RingStep::ArmAndOpen
        } else {
            RingStep::Nothing
        },
{
    if was_showing {
        RingStep::Closed
    } else if has_ring {
        RingStep::ArmAndOpen
    } else {
        RingStep::Nothing
    }
}

/// Whether the mouse hook is there only where it may be.
pub open spec fn consistent(state: HookState) -> bool {
    state.installed ==> state.accessibility_granted && state.capture_mouse_events
}

/// Whatever the system allows or takes back, the hook is never there without the
/// permission it needs, nor where the user does not want it.
pub proof fn law_the_hook_is_there_only_where_it_may_be(
    state: HookState,
    granted: bool,
    started: bool,
)
    requires
        consistent(state),
    ensures
        consistent(state.changed(granted, started)),
{
}

}
