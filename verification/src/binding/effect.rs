//! What firing an action amounts to, independent of platform.
//!
//! Every action falls into one of a few mechanisms: a click, a named shortcut, a
//! chord, a scroll tick, a media key, a native facility, a script, typed text, or
//! something the agent does itself. Each platform maps the names here to its own
//! keys and interfaces.

use vstd::prelude::*;

use crate::binding::action::{Action, ActionModel, StepModel, WorkflowStep};
use crate::binding::key_combo::{KeyCombo, KeyComboModel};
use crate::ordered::each;

verus! {

/// What firing an [`Action`] should do.
#[derive(Clone, Copy, Debug, PartialEq, Eq)]
pub enum Effect<'a> {
    /// Nothing at all.
    Nothing,
    /// Click a mouse button.
    Click(MouseButton),
    /// Fire a named shortcut.
    Shortcut(Shortcut),
    /// Tap a chord.
    Key(&'a KeyCombo),
    /// Hold a chord for as long as the press lasts; a tap where no release will
    /// come.
    HeldKey(&'a KeyCombo),
    /// One scroll tick.
    Scroll {
        /// -1 left, 1 right, 0 neither.
        dx: i8,
        /// -1 down, 1 up, 0 neither.
        dy: i8,
    },
    /// Fire a media key.
    Media(MediaKey),
    /// Use a facility of the desktop.
    Native(NativeAction),
    /// Run a script.
    Script(Script<'a>),
    /// Type a text.
    Text(&'a str),
    /// The agent does it itself.
    AgentSide,
}

/// A physical mouse button.
#[derive(Clone, Copy, Debug, PartialEq, Eq, Hash, Structural)]
pub enum MouseButton {
    Left,
    Right,
    Middle,
    Back,
    Forward,
}

/// A shortcut that is one idea everywhere but not the same keys.
#[derive(Clone, Copy, Debug, PartialEq, Eq, Hash, Structural)]
pub enum Shortcut {
    Copy,
    Paste,
    Cut,
    Undo,
    Redo,
    SelectAll,
    Find,
    Save,
    BrowserBack,
    BrowserForward,
    NewTab,
    CloseTab,
    ReopenTab,
    NextTab,
    PrevTab,
    ReloadPage,
    ZoomIn,
    ZoomOut,
}

impl Shortcut {
    /// Every named shortcut, in declaration order.
    pub const ALL: [Shortcut; 18] = [
        Shortcut::Copy,
        Shortcut::Paste,
        Shortcut::Cut,
        Shortcut::Undo,
        Shortcut::Redo,
        Shortcut::SelectAll,
        Shortcut::Find,
        Shortcut::Save,
        Shortcut::BrowserBack,
        Shortcut::BrowserForward,
        Shortcut::NewTab,
        Shortcut::CloseTab,
        Shortcut::ReopenTab,
        Shortcut::NextTab,
        Shortcut::PrevTab,
        Shortcut::ReloadPage,
        Shortcut::ZoomIn,
        Shortcut::ZoomOut,
    ];

    /// The position of a shortcut in [`Shortcut::ALL`].
    pub open spec fn position(self) -> int {
        match self {
            Shortcut::Copy => 0,
            Shortcut::Paste => 1,
            Shortcut::Cut => 2,
            Shortcut::Undo => 3,
            Shortcut::Redo => 4,
            Shortcut::SelectAll => 5,
            Shortcut::Find => 6,
            Shortcut::Save => 7,
            Shortcut::BrowserBack => 8,
            Shortcut::BrowserForward => 9,
            Shortcut::NewTab => 10,
            Shortcut::CloseTab => 11,
            Shortcut::ReopenTab => 12,
            Shortcut::NextTab => 13,
            Shortcut::PrevTab => 14,
            Shortcut::ReloadPage => 15,
            Shortcut::ZoomIn => 16,
            Shortcut::ZoomOut => 17,
        }
    }

    /// [`Shortcut::ALL`] holds every shortcut, each at its position.
    pub proof fn law_all_is_complete(self)
        ensures
            0 <= self.position() < Shortcut::ALL@.len(),
            Shortcut::ALL@[self.position()] == self,
    {
    }
}

/// A key with a dedicated media mechanism.
#[derive(Clone, Copy, Debug, PartialEq, Eq, Hash, Structural)]
pub enum MediaKey {
    PlayPause,
    NextTrack,
    PrevTrack,
    VolumeUp,
    VolumeDown,
    Mute,
    BrightnessUp,
    BrightnessDown,
}

/// A facility of the desktop without a common chord.
#[derive(Clone, Copy, Debug, PartialEq, Eq, Hash, Structural)]
pub enum NativeAction {
    MissionControl,
    AppExpose,
    PreviousDesktop,
    NextDesktop,
    ShowDesktop,
    LaunchpadShow,
    LockScreen,
    Screenshot,
    CaptureRegion,
    Sleep,
}

/// A script, borrowed from the action that carries it.
#[derive(Clone, Copy, Debug, PartialEq, Eq)]
pub enum Script<'a> {
    /// An AppleScript source.
    AppleScript(&'a str),
    /// A shell command.
    ShellCommand(&'a str),
    /// Steps to run one after the other.
    Workflow(&'a [WorkflowStep]),
}

/// The model of an [`Effect`].
pub ghost enum EffectModel {
    Nothing,
    Click(MouseButton),
    Shortcut(Shortcut),
    Key(KeyComboModel),
    HeldKey(KeyComboModel),
    Scroll { dx: int, dy: int },
    Media(MediaKey),
    Native(NativeAction),
    AppleScript(Seq<char>),
    ShellCommand(Seq<char>),
    Workflow(Seq<StepModel>),
    Text(Seq<char>),
    AgentSide,
}

impl<'a> View for Effect<'a> {
    type V = EffectModel;

    open spec fn view(&self) -> EffectModel {
        match self {
            Effect::Nothing => EffectModel::Nothing,
            Effect::Click(button) => EffectModel::Click(*button),
            Effect::Shortcut(shortcut) => EffectModel::Shortcut(*shortcut),
            Effect::Key(combo) => EffectModel::Key(combo@),
            Effect::HeldKey(combo) => EffectModel::HeldKey(combo@),
            Effect::Scroll { dx, dy } => EffectModel::Scroll { dx: *dx as int, dy: *dy as int },
            Effect::Media(key) => EffectModel::Media(*key),
            Effect::Native(action) => EffectModel::Native(*action),
            Effect::Script(Script::AppleScript(text)) => EffectModel::AppleScript(text@),
            Effect::Script(Script::ShellCommand(text)) => EffectModel::ShellCommand(text@),
            Effect::Script(Script::Workflow(steps)) => EffectModel::Workflow(each(steps@)),
            Effect::Text(text) => EffectModel::Text(text@),
            Effect::AgentSide => EffectModel::AgentSide,
        }
    }
}

/// What an action that carries no text amounts to.
pub open spec fn plain_effect(action: Action) -> EffectModel {
    match action {
        Action::DoNothing => EffectModel::Nothing,
        Action::LeftClick => EffectModel::Click(MouseButton::Left),
        Action::RightClick => EffectModel::Click(MouseButton::Right),
        Action::MiddleClick => EffectModel::Click(MouseButton::Middle),
        Action::MouseBack => EffectModel::Click(MouseButton::Back),
        Action::MouseForward => EffectModel::Click(MouseButton::Forward),
        Action::Copy => EffectModel::Shortcut(Shortcut::Copy),
        Action::Paste => EffectModel::Shortcut(Shortcut::Paste),
        Action::Cut => EffectModel::Shortcut(Shortcut::Cut),
        Action::Undo => EffectModel::Shortcut(Shortcut::Undo),
        Action::Redo => EffectModel::Shortcut(Shortcut::Redo),
        Action::SelectAll => EffectModel::Shortcut(Shortcut::SelectAll),
        Action::Find => EffectModel::Shortcut(Shortcut::Find),
        Action::Save => EffectModel::Shortcut(Shortcut::Save),
        Action::BrowserBack => EffectModel::Shortcut(Shortcut::BrowserBack),
        Action::BrowserForward => EffectModel::Shortcut(Shortcut::BrowserForward),
        Action::NewTab => EffectModel::Shortcut(Shortcut::NewTab),
        Action::CloseTab => EffectModel::Shortcut(Shortcut::CloseTab),
        Action::ReopenTab => EffectModel::Shortcut(Shortcut::ReopenTab),
        Action::NextTab => EffectModel::Shortcut(Shortcut::NextTab),
        Action::PrevTab => EffectModel::Shortcut(Shortcut::PrevTab),
        Action::ReloadPage => EffectModel::Shortcut(Shortcut::ReloadPage),
        Action::MissionControl => EffectModel::Native(NativeAction::MissionControl),
        Action::AppExpose => EffectModel::Native(NativeAction::AppExpose),
        Action::PreviousDesktop => EffectModel::Native(NativeAction::PreviousDesktop),
        Action::NextDesktop => EffectModel::Native(NativeAction::NextDesktop),
        Action::ShowDesktop => EffectModel::Native(NativeAction::ShowDesktop),
        Action::LaunchpadShow => EffectModel::Native(NativeAction::LaunchpadShow),
        Action::LockScreen => EffectModel::Native(NativeAction::LockScreen),
        Action::Screenshot => EffectModel::Native(NativeAction::Screenshot),
        Action::CaptureRegion => EffectModel::Native(NativeAction::CaptureRegion),
        Action::Sleep => EffectModel::Native(NativeAction::Sleep),
        Action::PlayPause => EffectModel::Media(MediaKey::PlayPause),
        Action::NextTrack => EffectModel::Media(MediaKey::NextTrack),
        Action::PrevTrack => EffectModel::Media(MediaKey::PrevTrack),
        Action::VolumeUp => EffectModel::Media(MediaKey::VolumeUp),
        Action::VolumeDown => EffectModel::Media(MediaKey::VolumeDown),
        Action::MuteVolume => EffectModel::Media(MediaKey::Mute),
        Action::BrightnessUp => EffectModel::Media(MediaKey::BrightnessUp),
        Action::BrightnessDown => EffectModel::Media(MediaKey::BrightnessDown),
        Action::ScrollUp => EffectModel::Scroll { dx: 0, dy: 1 },
        Action::ScrollDown => EffectModel::Scroll { dx: 0, dy: -1 },
        Action::HorizontalScrollLeft => EffectModel::Scroll { dx: -1, dy: 0 },
        Action::HorizontalScrollRight => EffectModel::Scroll { dx: 1, dy: 0 },
        _ => EffectModel::AgentSide,
    }
}

impl ActionModel {
    /// What firing an action amounts to.
    pub open spec fn effect(self) -> EffectModel {
        match self {
            ActionModel::Plain(action) => plain_effect(action),
            ActionModel::CustomShortcut(combo) => EffectModel::Key(combo),
            ActionModel::HoldShortcut(combo) => EffectModel::HeldKey(combo),
            ActionModel::TypeText(text) => EffectModel::Text(text),
            ActionModel::RunAppleScript(text) => EffectModel::AppleScript(text),
            ActionModel::RunShellCommand(text) => EffectModel::ShellCommand(text),
            ActionModel::Workflow(steps) => EffectModel::Workflow(steps),
            ActionModel::OpenApplication(_) => EffectModel::AgentSide,
        }
    }
}

impl Action {
    /// What firing this action amounts to.
    pub fn effect(&self) -> (effect: Effect<'_>)
        ensures
            effect@ == self@.effect(),
    {
        match self {
            Action::DoNothing => Effect::Nothing,
            Action::LeftClick => Effect::Click(MouseButton::Left),
            Action::RightClick => Effect::Click(MouseButton::Right),
            Action::MiddleClick => Effect::Click(MouseButton::Middle),
            Action::MouseBack => Effect::Click(MouseButton::Back),
            Action::MouseForward => Effect::Click(MouseButton::Forward),
            Action::Copy => Effect::Shortcut(Shortcut::Copy),
            Action::Paste => Effect::Shortcut(Shortcut::Paste),
            Action::Cut => Effect::Shortcut(Shortcut::Cut),
            Action::Undo => Effect::Shortcut(Shortcut::Undo),
            Action::Redo => Effect::Shortcut(Shortcut::Redo),
            Action::SelectAll => Effect::Shortcut(Shortcut::SelectAll),
            Action::Find => Effect::Shortcut(Shortcut::Find),
            Action::Save => Effect::Shortcut(Shortcut::Save),
            Action::BrowserBack => Effect::Shortcut(Shortcut::BrowserBack),
            Action::BrowserForward => Effect::Shortcut(Shortcut::BrowserForward),
            Action::NewTab => Effect::Shortcut(Shortcut::NewTab),
            Action::CloseTab => Effect::Shortcut(Shortcut::CloseTab),
            Action::ReopenTab => Effect::Shortcut(Shortcut::ReopenTab),
            Action::NextTab => Effect::Shortcut(Shortcut::NextTab),
            Action::PrevTab => Effect::Shortcut(Shortcut::PrevTab),
            Action::ReloadPage => Effect::Shortcut(Shortcut::ReloadPage),
            Action::MissionControl => Effect::Native(NativeAction::MissionControl),
            Action::AppExpose => Effect::Native(NativeAction::AppExpose),
            Action::PreviousDesktop => Effect::Native(NativeAction::PreviousDesktop),
            Action::NextDesktop => Effect::Native(NativeAction::NextDesktop),
            Action::ShowDesktop => Effect::Native(NativeAction::ShowDesktop),
            Action::LaunchpadShow => Effect::Native(NativeAction::LaunchpadShow),
            Action::LockScreen => Effect::Native(NativeAction::LockScreen),
            Action::Screenshot => Effect::Native(NativeAction::Screenshot),
            Action::CaptureRegion => Effect::Native(NativeAction::CaptureRegion),
            Action::Sleep => Effect::Native(NativeAction::Sleep),
            Action::PlayPause => Effect::Media(MediaKey::PlayPause),
            Action::NextTrack => Effect::Media(MediaKey::NextTrack),
            Action::PrevTrack => Effect::Media(MediaKey::PrevTrack),
            Action::VolumeUp => Effect::Media(MediaKey::VolumeUp),
            Action::VolumeDown => Effect::Media(MediaKey::VolumeDown),
            Action::MuteVolume => Effect::Media(MediaKey::Mute),
            Action::BrightnessUp => Effect::Media(MediaKey::BrightnessUp),
            Action::BrightnessDown => Effect::Media(MediaKey::BrightnessDown),
            Action::ScrollUp => Effect::Scroll { dx: 0, dy: 1 },
            Action::ScrollDown => Effect::Scroll { dx: 0, dy: -1 },
            Action::HorizontalScrollLeft => Effect::Scroll { dx: -1, dy: 0 },
            Action::HorizontalScrollRight => Effect::Scroll { dx: 1, dy: 0 },
            Action::CycleDpiPresets
            | Action::SetDpiPreset(_)
            | Action::ToggleSmartShift
            | Action::ShowActionsRing
            | Action::OpenApplication(_) => Effect::AgentSide,
            Action::CustomShortcut(combo) => Effect::Key(combo),
            Action::HoldShortcut(combo) => Effect::HeldKey(combo),
            Action::TypeText(text) => Effect::Text(text.as_str()),
            Action::RunAppleScript(text) => Effect::Script(Script::AppleScript(text.as_str())),
            Action::RunShellCommand(text) => Effect::Script(Script::ShellCommand(text.as_str())),
            Action::Workflow(steps) => Effect::Script(Script::Workflow(steps.as_slice())),
        }
    }
}

/// Every action has a real effect, except the one that does nothing.
pub proof fn law_only_do_nothing_has_no_effect(action: Action)
    ensures
        action@.effect() is Nothing <==> action == Action::DoNothing,
{
}

impl Shortcut {
    /// What a shortcut is called.
    pub open spec fn called(self) -> Seq<char> {
        match self {
            Shortcut::Copy => "Copy"@,
            Shortcut::Paste => "Paste"@,
            Shortcut::Cut => "Cut"@,
            Shortcut::Undo => "Undo"@,
            Shortcut::Redo => "Redo"@,
            Shortcut::SelectAll => "Select All"@,
            Shortcut::Find => "Find"@,
            Shortcut::Save => "Save"@,
            Shortcut::BrowserBack => "Browser Back"@,
            Shortcut::BrowserForward => "Browser Forward"@,
            Shortcut::NewTab => "New Tab"@,
            Shortcut::CloseTab => "Close Tab"@,
            Shortcut::ReopenTab => "Reopen Tab"@,
            Shortcut::NextTab => "Next Tab"@,
            Shortcut::PrevTab => "Previous Tab"@,
            Shortcut::ReloadPage => "Reload Page"@,
            Shortcut::ZoomIn => "Zoom In"@,
            Shortcut::ZoomOut => "Zoom Out"@,
        }
    }
}

impl MediaKey {
    /// What a media key is called.
    pub open spec fn called(self) -> Seq<char> {
        match self {
            MediaKey::PlayPause => "Play / Pause"@,
            MediaKey::NextTrack => "Next Track"@,
            MediaKey::PrevTrack => "Previous Track"@,
            MediaKey::VolumeUp => "Volume Up"@,
            MediaKey::VolumeDown => "Volume Down"@,
            MediaKey::Mute => "Mute"@,
            MediaKey::BrightnessUp => "Brightness Up"@,
            MediaKey::BrightnessDown => "Brightness Down"@,
        }
    }
}

impl NativeAction {
    /// What a facility is called.
    pub open spec fn called(self) -> Seq<char> {
        match self {
            NativeAction::MissionControl => "Mission Control"@,
            NativeAction::AppExpose => "App Exposé"@,
            NativeAction::PreviousDesktop => "Previous Desktop"@,
            NativeAction::NextDesktop => "Next Desktop"@,
            NativeAction::ShowDesktop => "Show Desktop"@,
            NativeAction::LaunchpadShow => "Launchpad"@,
            NativeAction::LockScreen => "Lock Screen"@,
            NativeAction::Screenshot => "Screenshot"@,
            NativeAction::CaptureRegion => "Capture Region"@,
            NativeAction::Sleep => "Sleep"@,
        }
    }
}

impl MouseButton {
    /// What a click is called.
    pub open spec fn called(self) -> Seq<char> {
        match self {
            MouseButton::Left => "Left Click"@,
            MouseButton::Right => "Right Click"@,
            MouseButton::Middle => "Middle Click"@,
            MouseButton::Back => "Back (Button 4)"@,
            MouseButton::Forward => "Forward (Button 5)"@,
        }
    }
}

/// Firing an action does what the action is called: the click, the shortcut, the
/// media key and the facility bear its label. A scroll goes the way the label
/// says, one tick.
pub proof fn law_an_action_does_what_it_is_called(action: Action)
    requires
        action.plain(),
    ensures
        match action@.effect() {
            EffectModel::Nothing => action@.label() == "Do Nothing"@,
            EffectModel::Click(button) => action@.label() == button.called(),
            EffectModel::Shortcut(shortcut) => action@.label() == shortcut.called(),
            EffectModel::Media(key) => action@.label() == key.called(),
            EffectModel::Native(facility) => action@.label() == facility.called(),
            EffectModel::Scroll { dx, dy } => {
                ||| dx == 0 && dy == 1 && action@.label() == "Scroll Up"@
                ||| dx == 0 && dy == -1 && action@.label() == "Scroll Down"@
                ||| dx == -1 && dy == 0 && action@.label() == "Scroll Left"@
                ||| dx == 1 && dy == 0 && action@.label() == "Scroll Right"@
            },
            EffectModel::AgentSide => {
                ||| action@.label() == "Actions Ring"@
                ||| action@.label() == "Cycle DPI Presets"@
                ||| action@.label() == "Toggle SmartShift"@
            },
            _ => false,
        },
{
}

/// Two actions that carry nothing never do the same, but for those that the
/// agent does itself.
pub proof fn law_no_two_actions_do_the_same(a: Action, b: Action)
    requires
        a.plain(),
        b.plain(),
        a@.effect() == b@.effect(),
        !(a@.effect() is AgentSide),
    ensures
        a == b,
{
}

/// What an action carries is what is fired, in the way the action says: a chord
/// that is tapped is not held, a text that is typed is not run. What the agent
/// does itself is left to it.
pub proof fn law_what_an_action_carries_is_fired(action: ActionModel)
    ensures
        action is CustomShortcut <==> action.effect() is Key,
        action is HoldShortcut <==> action.effect() is HeldKey,
        action is TypeText <==> action.effect() is Text,
        action is RunAppleScript <==> action.effect() is AppleScript,
        action is RunShellCommand <==> action.effect() is ShellCommand,
        action is Workflow <==> action.effect() is Workflow,
        match action.effect() {
            EffectModel::Key(combo) => action == ActionModel::CustomShortcut(combo),
            EffectModel::HeldKey(combo) => action == ActionModel::HoldShortcut(combo),
            EffectModel::Text(text) => action == ActionModel::TypeText(text),
            EffectModel::AppleScript(text) => action == ActionModel::RunAppleScript(text),
            EffectModel::ShellCommand(text) => action == ActionModel::RunShellCommand(text),
            EffectModel::Workflow(steps) => action == ActionModel::Workflow(steps),
            _ => true,
        },
        action is OpenApplication ==> action.effect() is AgentSide,
        action matches ActionModel::Plain(Action::SetDpiPreset(_)) ==> action.effect()
            is AgentSide,
{
}

/// Actions are grouped by what they do.
pub proof fn law_the_group_goes_with_the_effect(action: Action)
    requires
        action.plain(),
    ensures
        action@.effect() is Click <==> action@.category() is Mouse,
        action@.effect() is Scroll <==> action@.category() is Scroll,
        action@.effect() is Shortcut <==> action@.category() is Editing
            || action@.category() is Browser,
        action@.effect() matches EffectModel::Shortcut(shortcut) ==> (action@.category()
            is Editing <==> shortcut.position() < Shortcut::BrowserBack.position()),
        action@.category() is Media ==> action@.effect() is Media,
        action@.effect() is Media && !(action@.category() is Media) ==> action@.effect()
            == EffectModel::Media(MediaKey::BrightnessUp) || action@.effect()
            == EffectModel::Media(MediaKey::BrightnessDown),
        action@.category() is Navigation ==> action@.effect() is Native,
        action@.category() is Dpi ==> action@.effect() is AgentSide,
{
}

}
