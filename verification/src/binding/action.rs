//! The action vocabulary a control can be bound to.

use vstd::prelude::*;
use vstd::string::StringExecFns;

use crate::binding::key_combo::{ApplicationTarget, KeyCombo, KeyComboModel, TargetModel};
use crate::ordered::{each, replicate_each, same_each, Replicate, Same};
use crate::text::{decimal, push_decimal, same_text, small_letter};

verus! {

/// What using a control should do.
///
/// The variant names are the persisted vocabulary: new ones are added at the end.
#[derive(Clone, Debug, PartialEq, Eq, Hash)]
pub enum Action {
    /// Swallow the input: nothing is emitted.
    DoNothing,
    /// Primary mouse button.
    LeftClick,
    /// Secondary mouse button.
    RightClick,
    /// Wheel click.
    MiddleClick,
    /// The real fourth mouse button.
    MouseBack,
    /// The real fifth mouse button.
    MouseForward,
    /// Copy.
    Copy,
    /// Paste.
    Paste,
    /// Cut.
    Cut,
    /// Undo.
    Undo,
    /// Redo.
    Redo,
    /// Select All.
    SelectAll,
    /// Find.
    Find,
    /// Save.
    Save,
    /// Browser Back.
    BrowserBack,
    /// Browser Forward.
    BrowserForward,
    /// New Tab.
    NewTab,
    /// Close Tab.
    CloseTab,
    /// Reopen Tab.
    ReopenTab,
    /// Next Tab.
    NextTab,
    /// Previous Tab.
    PrevTab,
    /// Reload Page.
    ReloadPage,
    /// Mission Control.
    MissionControl,
    /// App Exposé.
    AppExpose,
    /// Previous Desktop.
    PreviousDesktop,
    /// Next Desktop.
    NextDesktop,
    /// Show Desktop.
    ShowDesktop,
    /// Launchpad.
    LaunchpadShow,
    /// Lock Screen.
    LockScreen,
    /// Screenshot.
    Screenshot,
    /// Capture Region.
    CaptureRegion,
    /// Play / Pause.
    PlayPause,
    /// Next Track.
    NextTrack,
    /// Previous Track.
    PrevTrack,
    /// Volume Up.
    VolumeUp,
    /// Volume Down.
    VolumeDown,
    /// Mute.
    MuteVolume,
    /// Cycle DPI Presets.
    CycleDpiPresets,
    /// Jump to a preset of the DPI list, counted from zero.
    SetDpiPreset(u8),
    /// Toggle SmartShift.
    ToggleSmartShift,
    /// Scroll Up.
    ScrollUp,
    /// Scroll Down.
    ScrollDown,
    /// Scroll Left.
    HorizontalScrollLeft,
    /// Scroll Right.
    HorizontalScrollRight,
    /// Tap a recorded chord.
    CustomShortcut(KeyCombo),
    /// Sleep.
    Sleep,
    /// Type a text.
    TypeText(String),
    /// Run an AppleScript.
    RunAppleScript(String),
    /// Run a shell command.
    RunShellCommand(String),
    /// Run steps one after the other.
    Workflow(Vec<WorkflowStep>),
    /// Actions Ring.
    ShowActionsRing,
    /// Open an application, folder, path or address.
    OpenApplication(ApplicationTarget),
    /// Hold a recorded chord down for as long as the press lasts.
    HoldShortcut(KeyCombo),
    /// Brightness Up.
    BrightnessUp,
    /// Brightness Down.
    BrightnessDown,
}

/// One step of a [`Action::Workflow`].
#[derive(Clone, Debug, PartialEq, Eq, Hash)]
pub enum WorkflowStep {
    /// Type a text.
    TypeText(String),
    /// Press a chord.
    PressKey(KeyCombo),
    /// Wait before the next step.
    Delay {
        /// How long to wait, in milliseconds.
        millis: u64,
    },
    /// Run an AppleScript.
    RunAppleScript(String),
    /// Run a shell command.
    RunShellCommand(String),
}

/// The groups in which actions are offered.
#[derive(Clone, Copy, Debug, PartialEq, Eq, Hash, Structural)]
pub enum Category {
    Mouse,
    Editing,
    Browser,
    Navigation,
    System,
    Media,
    Dpi,
    Scroll,
}

/// The model of a [`WorkflowStep`].
pub ghost enum StepModel {
    TypeText(Seq<char>),
    PressKey(KeyComboModel),
    Delay(u64),
    RunAppleScript(Seq<char>),
    RunShellCommand(Seq<char>),
}

/// The model of an [`Action`]: the action itself where it carries no text, else
/// the model of what it carries.
pub ghost enum ActionModel {
    Plain(Action),
    CustomShortcut(KeyComboModel),
    TypeText(Seq<char>),
    RunAppleScript(Seq<char>),
    RunShellCommand(Seq<char>),
    Workflow(Seq<StepModel>),
    OpenApplication(TargetModel),
    HoldShortcut(KeyComboModel),
}

impl View for WorkflowStep {
    type V = StepModel;

    open spec fn view(&self) -> StepModel {
        match self {
            WorkflowStep::TypeText(text) => StepModel::TypeText(text@),
            WorkflowStep::PressKey(combo) => StepModel::PressKey(combo@),
            WorkflowStep::Delay { millis } => StepModel::Delay(*millis),
            WorkflowStep::RunAppleScript(text) => StepModel::RunAppleScript(text@),
            WorkflowStep::RunShellCommand(text) => StepModel::RunShellCommand(text@),
        }
    }
}

impl Replicate for WorkflowStep {
    fn replicate(&self) -> (copy: Self) {
        match self {
            WorkflowStep::TypeText(text) => WorkflowStep::TypeText(text.clone()),
            WorkflowStep::PressKey(combo) => WorkflowStep::PressKey(combo.replicate()),
            WorkflowStep::Delay { millis } => WorkflowStep::Delay { millis: *millis },
            WorkflowStep::RunAppleScript(text) => WorkflowStep::RunAppleScript(text.clone()),
            WorkflowStep::RunShellCommand(text) => WorkflowStep::RunShellCommand(text.clone()),
        }
    }
}

impl Same for WorkflowStep {
    fn same(&self, other: &Self) -> (same: bool) {
        match (self, other) {
            (WorkflowStep::TypeText(a), WorkflowStep::TypeText(b)) => *a == *b,
            (WorkflowStep::PressKey(a), WorkflowStep::PressKey(b)) => a.same(b),
            (WorkflowStep::Delay { millis: a }, WorkflowStep::Delay { millis: b }) => *a == *b,
            (WorkflowStep::RunAppleScript(a), WorkflowStep::RunAppleScript(b)) => *a == *b,
            (WorkflowStep::RunShellCommand(a), WorkflowStep::RunShellCommand(b)) => *a == *b,
            _ => false,
        }
    }
}

impl View for Action {
    type V = ActionModel;

    open spec fn view(&self) -> ActionModel {
        match self {
            Action::CustomShortcut(combo) => ActionModel::CustomShortcut(combo@),
            Action::TypeText(text) => ActionModel::TypeText(text@),
            Action::RunAppleScript(text) => ActionModel::RunAppleScript(text@),
            Action::RunShellCommand(text) => ActionModel::RunShellCommand(text@),
            Action::Workflow(steps) => ActionModel::Workflow(each(steps@)),
            Action::OpenApplication(target) => ActionModel::OpenApplication(target@),
            Action::HoldShortcut(combo) => ActionModel::HoldShortcut(combo@),
            _ => ActionModel::Plain(*self),
        }
    }
}

impl Replicate for Action {
    fn replicate(&self) -> (copy: Self) {
        match self {
            Action::CustomShortcut(combo) => Action::CustomShortcut(combo.replicate()),
            Action::TypeText(text) => Action::TypeText(text.clone()),
            Action::RunAppleScript(text) => Action::RunAppleScript(text.clone()),
            Action::RunShellCommand(text) => Action::RunShellCommand(text.clone()),
            Action::Workflow(steps) => Action::Workflow(replicate_each(steps)),
            Action::OpenApplication(target) => Action::OpenApplication(target.replicate()),
            Action::HoldShortcut(combo) => Action::HoldShortcut(combo.replicate()),
            Action::SetDpiPreset(index) => Action::SetDpiPreset(*index),
            Action::DoNothing => Action::DoNothing,
            Action::LeftClick => Action::LeftClick,
            Action::RightClick => Action::RightClick,
            Action::MiddleClick => Action::MiddleClick,
            Action::MouseBack => Action::MouseBack,
            Action::MouseForward => Action::MouseForward,
            Action::Copy => Action::Copy,
            Action::Paste => Action::Paste,
            Action::Cut => Action::Cut,
            Action::Undo => Action::Undo,
            Action::Redo => Action::Redo,
            Action::SelectAll => Action::SelectAll,
            Action::Find => Action::Find,
            Action::Save => Action::Save,
            Action::BrowserBack => Action::BrowserBack,
            Action::BrowserForward => Action::BrowserForward,
            Action::NewTab => Action::NewTab,
            Action::CloseTab => Action::CloseTab,
            Action::ReopenTab => Action::ReopenTab,
            Action::NextTab => Action::NextTab,
            Action::PrevTab => Action::PrevTab,
            Action::ReloadPage => Action::ReloadPage,
            Action::MissionControl => Action::MissionControl,
            Action::AppExpose => Action::AppExpose,
            Action::PreviousDesktop => Action::PreviousDesktop,
            Action::NextDesktop => Action::NextDesktop,
            Action::ShowDesktop => Action::ShowDesktop,
            Action::LaunchpadShow => Action::LaunchpadShow,
            Action::LockScreen => Action::LockScreen,
            Action::Screenshot => Action::Screenshot,
            Action::CaptureRegion => Action::CaptureRegion,
            Action::PlayPause => Action::PlayPause,
            Action::NextTrack => Action::NextTrack,
            Action::PrevTrack => Action::PrevTrack,
            Action::VolumeUp => Action::VolumeUp,
            Action::VolumeDown => Action::VolumeDown,
            Action::MuteVolume => Action::MuteVolume,
            Action::CycleDpiPresets => Action::CycleDpiPresets,
            Action::ToggleSmartShift => Action::ToggleSmartShift,
            Action::ScrollUp => Action::ScrollUp,
            Action::ScrollDown => Action::ScrollDown,
            Action::HorizontalScrollLeft => Action::HorizontalScrollLeft,
            Action::HorizontalScrollRight => Action::HorizontalScrollRight,
            Action::Sleep => Action::Sleep,
            Action::ShowActionsRing => Action::ShowActionsRing,
            Action::BrightnessUp => Action::BrightnessUp,
            Action::BrightnessDown => Action::BrightnessDown,
        }
    }
}

impl Same for Action {
    fn same(&self, other: &Self) -> (same: bool) {
        match (self, other) {
            (Action::CustomShortcut(a), Action::CustomShortcut(b)) => a.same(b),
            (Action::TypeText(a), Action::TypeText(b)) => *a == *b,
            (Action::RunAppleScript(a), Action::RunAppleScript(b)) => *a == *b,
            (Action::RunShellCommand(a), Action::RunShellCommand(b)) => *a == *b,
            (Action::Workflow(a), Action::Workflow(b)) => same_each(a, b),
            (Action::OpenApplication(a), Action::OpenApplication(b)) => a.same(b),
            (Action::HoldShortcut(a), Action::HoldShortcut(b)) => a.same(b),
            (Action::SetDpiPreset(a), Action::SetDpiPreset(b)) => *a == *b,
            _ => self.is_plain() && other.is_plain() && self.rank() == other.rank(),
        }
    }
}

impl Action {
    /// The position of the variant in the vocabulary.
    pub open spec fn position(self) -> int {
        match self {
            Action::DoNothing => 0,
            Action::LeftClick => 1,
            Action::RightClick => 2,
            Action::MiddleClick => 3,
            Action::MouseBack => 4,
            Action::MouseForward => 5,
            Action::Copy => 6,
            Action::Paste => 7,
            Action::Cut => 8,
            Action::Undo => 9,
            Action::Redo => 10,
            Action::SelectAll => 11,
            Action::Find => 12,
            Action::Save => 13,
            Action::BrowserBack => 14,
            Action::BrowserForward => 15,
            Action::NewTab => 16,
            Action::CloseTab => 17,
            Action::ReopenTab => 18,
            Action::NextTab => 19,
            Action::PrevTab => 20,
            Action::ReloadPage => 21,
            Action::MissionControl => 22,
            Action::AppExpose => 23,
            Action::PreviousDesktop => 24,
            Action::NextDesktop => 25,
            Action::ShowDesktop => 26,
            Action::LaunchpadShow => 27,
            Action::LockScreen => 28,
            Action::Screenshot => 29,
            Action::CaptureRegion => 30,
            Action::PlayPause => 31,
            Action::NextTrack => 32,
            Action::PrevTrack => 33,
            Action::VolumeUp => 34,
            Action::VolumeDown => 35,
            Action::MuteVolume => 36,
            Action::CycleDpiPresets => 37,
            Action::SetDpiPreset(_) => 38,
            Action::ToggleSmartShift => 39,
            Action::ScrollUp => 40,
            Action::ScrollDown => 41,
            Action::HorizontalScrollLeft => 42,
            Action::HorizontalScrollRight => 43,
            Action::CustomShortcut(_) => 44,
            Action::Sleep => 45,
            Action::TypeText(_) => 46,
            Action::RunAppleScript(_) => 47,
            Action::RunShellCommand(_) => 48,
            Action::Workflow(_) => 49,
            Action::ShowActionsRing => 50,
            Action::OpenApplication(_) => 51,
            Action::HoldShortcut(_) => 52,
            Action::BrightnessUp => 53,
            Action::BrightnessDown => 54,
        }
    }

    /// Whether the action carries nothing.
    pub open spec fn plain(self) -> bool {
        match self {
            Action::SetDpiPreset(_)
            | Action::CustomShortcut(_)
            | Action::TypeText(_)
            | Action::RunAppleScript(_)
            | Action::RunShellCommand(_)
            | Action::Workflow(_)
            | Action::OpenApplication(_)
            | Action::HoldShortcut(_) => false,
            _ => true,
        }
    }

    fn rank(&self) -> (rank: u8)
        ensures
            rank == self.position(),
    {
        match self {
            Action::DoNothing => 0,
            Action::LeftClick => 1,
            Action::RightClick => 2,
            Action::MiddleClick => 3,
            Action::MouseBack => 4,
            Action::MouseForward => 5,
            Action::Copy => 6,
            Action::Paste => 7,
            Action::Cut => 8,
            Action::Undo => 9,
            Action::Redo => 10,
            Action::SelectAll => 11,
            Action::Find => 12,
            Action::Save => 13,
            Action::BrowserBack => 14,
            Action::BrowserForward => 15,
            Action::NewTab => 16,
            Action::CloseTab => 17,
            Action::ReopenTab => 18,
            Action::NextTab => 19,
            Action::PrevTab => 20,
            Action::ReloadPage => 21,
            Action::MissionControl => 22,
            Action::AppExpose => 23,
            Action::PreviousDesktop => 24,
            Action::NextDesktop => 25,
            Action::ShowDesktop => 26,
            Action::LaunchpadShow => 27,
            Action::LockScreen => 28,
            Action::Screenshot => 29,
            Action::CaptureRegion => 30,
            Action::PlayPause => 31,
            Action::NextTrack => 32,
            Action::PrevTrack => 33,
            Action::VolumeUp => 34,
            Action::VolumeDown => 35,
            Action::MuteVolume => 36,
            Action::CycleDpiPresets => 37,
            Action::SetDpiPreset(_) => 38,
            Action::ToggleSmartShift => 39,
            Action::ScrollUp => 40,
            Action::ScrollDown => 41,
            Action::HorizontalScrollLeft => 42,
            Action::HorizontalScrollRight => 43,
            Action::CustomShortcut(_) => 44,
            Action::Sleep => 45,
            Action::TypeText(_) => 46,
            Action::RunAppleScript(_) => 47,
            Action::RunShellCommand(_) => 48,
            Action::Workflow(_) => 49,
            Action::ShowActionsRing => 50,
            Action::OpenApplication(_) => 51,
            Action::HoldShortcut(_) => 52,
            Action::BrightnessUp => 53,
            Action::BrightnessDown => 54,
        }
    }

    fn is_plain(&self) -> (plain: bool)
        ensures
            plain == self.plain(),
    {
        match self {
            Action::SetDpiPreset(_)
            | Action::CustomShortcut(_)
            | Action::TypeText(_)
            | Action::RunAppleScript(_)
            | Action::RunShellCommand(_)
            | Action::Workflow(_)
            | Action::OpenApplication(_)
            | Action::HoldShortcut(_) => false,
            _ => true,
        }
    }

    /// The chord that must stay down until the press ends, if there is one.
    pub fn held_combo(&self) -> (combo: Option<&KeyCombo>)
        ensures
            match combo {
                Some(c) => self@ == ActionModel::HoldShortcut(c@),
                None => !(self@ is HoldShortcut),
            },
    {
        match self {
            Action::HoldShortcut(combo) => Some(combo),
            _ => None,
        }
    }
}

/// The label of an action that carries nothing.
pub open spec fn plain_label(action: Action) -> Seq<char> {
    match action {
        Action::LeftClick => "Left Click"@,
        Action::RightClick => "Right Click"@,
        Action::MiddleClick => "Middle Click"@,
        Action::MouseBack => "Back (Button 4)"@,
        Action::MouseForward => "Forward (Button 5)"@,
        Action::Copy => "Copy"@,
        Action::Paste => "Paste"@,
        Action::Cut => "Cut"@,
        Action::Undo => "Undo"@,
        Action::Redo => "Redo"@,
        Action::SelectAll => "Select All"@,
        Action::Find => "Find"@,
        Action::Save => "Save"@,
        Action::BrowserBack => "Browser Back"@,
        Action::BrowserForward => "Browser Forward"@,
        Action::NewTab => "New Tab"@,
        Action::CloseTab => "Close Tab"@,
        Action::ReopenTab => "Reopen Tab"@,
        Action::NextTab => "Next Tab"@,
        Action::PrevTab => "Previous Tab"@,
        Action::ReloadPage => "Reload Page"@,
        Action::MissionControl => "Mission Control"@,
        Action::AppExpose => "App Exposé"@,
        Action::PreviousDesktop => "Previous Desktop"@,
        Action::NextDesktop => "Next Desktop"@,
        Action::ShowDesktop => "Show Desktop"@,
        Action::LaunchpadShow => "Launchpad"@,
        Action::DoNothing => "Do Nothing"@,
        Action::LockScreen => "Lock Screen"@,
        Action::Screenshot => "Screenshot"@,
        Action::CaptureRegion => "Capture Region"@,
        Action::Sleep => "Sleep"@,
        Action::BrightnessUp => "Brightness Up"@,
        Action::BrightnessDown => "Brightness Down"@,
        Action::ShowActionsRing => "Actions Ring"@,
        Action::PlayPause => "Play / Pause"@,
        Action::NextTrack => "Next Track"@,
        Action::PrevTrack => "Previous Track"@,
        Action::VolumeUp => "Volume Up"@,
        Action::VolumeDown => "Volume Down"@,
        Action::MuteVolume => "Mute"@,
        Action::CycleDpiPresets => "Cycle DPI Presets"@,
        Action::ToggleSmartShift => "Toggle SmartShift"@,
        Action::ScrollUp => "Scroll Up"@,
        Action::ScrollDown => "Scroll Down"@,
        Action::HorizontalScrollLeft => "Scroll Left"@,
        Action::HorizontalScrollRight => "Scroll Right"@,
        _ => Seq::empty(),
    }
}

/// The catalog key of an action that carries nothing.
pub open spec fn plain_translation_key(action: Action) -> Seq<char> {
    match action {
        Action::LeftClick => "actions.left_click"@,
        Action::RightClick => "actions.right_click"@,
        Action::MiddleClick => "actions.middle_click"@,
        Action::MouseBack => "actions.back_button_4"@,
        Action::MouseForward => "actions.forward_button_5"@,
        Action::Copy => "common.copy"@,
        Action::Paste => "common.paste"@,
        Action::Cut => "common.cut"@,
        Action::Undo => "common.undo"@,
        Action::Redo => "common.redo"@,
        Action::SelectAll => "common.select_all"@,
        Action::Find => "actions.find"@,
        Action::Save => "common.save"@,
        Action::BrowserBack => "actions.browser_back"@,
        Action::BrowserForward => "actions.browser_forward"@,
        Action::NewTab => "actions.new_tab"@,
        Action::CloseTab => "actions.close_tab"@,
        Action::ReopenTab => "actions.reopen_tab"@,
        Action::NextTab => "actions.next_tab"@,
        Action::PrevTab => "actions.previous_tab"@,
        Action::ReloadPage => "actions.reload_page"@,
        Action::MissionControl => "actions.mission_control"@,
        Action::AppExpose => "actions.app_expose"@,
        Action::PreviousDesktop => "actions.previous_desktop"@,
        Action::NextDesktop => "actions.next_desktop"@,
        Action::ShowDesktop => "actions.show_desktop"@,
        Action::LaunchpadShow => "actions.launchpad"@,
        Action::DoNothing => "pointer.do_nothing"@,
        Action::LockScreen => "actions.lock_screen"@,
        Action::Screenshot => "actions.screenshot"@,
        Action::CaptureRegion => "actions.capture_region"@,
        Action::Sleep => "actions.sleep"@,
        Action::BrightnessUp => "actions.brightness_up"@,
        Action::BrightnessDown => "actions.brightness_down"@,
        Action::ShowActionsRing => "action_ring.actions_ring"@,
        Action::PlayPause => "actions.play_pause"@,
        Action::NextTrack => "actions.next_track"@,
        Action::PrevTrack => "actions.previous_track"@,
        Action::VolumeUp => "actions.volume_up"@,
        Action::VolumeDown => "actions.volume_down"@,
        Action::MuteVolume => "actions.mute"@,
        Action::CycleDpiPresets => "pointer.cycle_dpi_presets"@,
        Action::ToggleSmartShift => "pointer.toggle_smartshift"@,
        Action::ScrollUp => "actions.scroll_up"@,
        Action::ScrollDown => "actions.scroll_down"@,
        Action::HorizontalScrollLeft => "actions.scroll_left"@,
        Action::HorizontalScrollRight => "actions.scroll_right"@,
        _ => Seq::empty(),
    }
}

/// The group of an action that carries nothing.
pub open spec fn plain_category(action: Action) -> Category {
    match action {
        Action::LeftClick => Category::Mouse,
        Action::RightClick => Category::Mouse,
        Action::MiddleClick => Category::Mouse,
        Action::MouseBack => Category::Mouse,
        Action::MouseForward => Category::Mouse,
        Action::Copy => Category::Editing,
        Action::Paste => Category::Editing,
        Action::Cut => Category::Editing,
        Action::Undo => Category::Editing,
        Action::Redo => Category::Editing,
        Action::SelectAll => Category::Editing,
        Action::Find => Category::Editing,
        Action::Save => Category::Editing,
        Action::BrowserBack => Category::Browser,
        Action::BrowserForward => Category::Browser,
        Action::NewTab => Category::Browser,
        Action::CloseTab => Category::Browser,
        Action::ReopenTab => Category::Browser,
        Action::NextTab => Category::Browser,
        Action::PrevTab => Category::Browser,
        Action::ReloadPage => Category::Browser,
        Action::MissionControl => Category::Navigation,
        Action::AppExpose => Category::Navigation,
        Action::PreviousDesktop => Category::Navigation,
        Action::NextDesktop => Category::Navigation,
        Action::ShowDesktop => Category::Navigation,
        Action::LaunchpadShow => Category::Navigation,
        Action::DoNothing => Category::System,
        Action::LockScreen => Category::System,
        Action::Screenshot => Category::System,
        Action::CaptureRegion => Category::System,
        Action::Sleep => Category::System,
        Action::BrightnessUp => Category::System,
        Action::BrightnessDown => Category::System,
        Action::ShowActionsRing => Category::System,
        Action::PlayPause => Category::Media,
        Action::NextTrack => Category::Media,
        Action::PrevTrack => Category::Media,
        Action::VolumeUp => Category::Media,
        Action::VolumeDown => Category::Media,
        Action::MuteVolume => Category::Media,
        Action::CycleDpiPresets => Category::Dpi,
        Action::ToggleSmartShift => Category::Dpi,
        Action::ScrollUp => Category::Scroll,
        Action::ScrollDown => Category::Scroll,
        Action::HorizontalScrollLeft => Category::Scroll,
        Action::HorizontalScrollRight => Category::Scroll,
        _ => Category::Editing,
    }
}

/// The actions that carry nothing, in the order in which they are offered.
pub open spec fn offered() -> Seq<Action> {
    seq![
        Action::LeftClick,
        Action::RightClick,
        Action::MiddleClick,
        Action::MouseBack,
        Action::MouseForward,
        Action::Copy,
        Action::Paste,
        Action::Cut,
        Action::Undo,
        Action::Redo,
        Action::SelectAll,
        Action::Find,
        Action::Save,
        Action::BrowserBack,
        Action::BrowserForward,
        Action::NewTab,
        Action::CloseTab,
        Action::ReopenTab,
        Action::NextTab,
        Action::PrevTab,
        Action::ReloadPage,
        Action::MissionControl,
        Action::AppExpose,
        Action::PreviousDesktop,
        Action::NextDesktop,
        Action::ShowDesktop,
        Action::LaunchpadShow,
        Action::DoNothing,
        Action::LockScreen,
        Action::Screenshot,
        Action::CaptureRegion,
        Action::Sleep,
        Action::BrightnessUp,
        Action::BrightnessDown,
        Action::ShowActionsRing,
        Action::PlayPause,
        Action::NextTrack,
        Action::PrevTrack,
        Action::VolumeUp,
        Action::VolumeDown,
        Action::MuteVolume,
        Action::CycleDpiPresets,
        Action::ToggleSmartShift,
        Action::ScrollUp,
        Action::ScrollDown,
        Action::HorizontalScrollLeft,
        Action::HorizontalScrollRight,
    ]
}

impl ActionModel {
    /// The label shown for an action.
    pub open spec fn label(self) -> Seq<char> {
        match self {
            ActionModel::Plain(Action::SetDpiPreset(index)) => "DPI Preset "@ + decimal(
                (index + 1) as nat,
            ),
            ActionModel::Plain(action) => plain_label(action),
            ActionModel::CustomShortcut(combo) => combo.rendered(),
            ActionModel::TypeText(text) => "Type \""@ + text + "\""@,
            ActionModel::RunAppleScript(_) => "Run AppleScript"@,
            ActionModel::RunShellCommand(_) => "Run Command"@,
            ActionModel::Workflow(steps) => "Workflow ("@ + decimal(steps.len()) + " steps)"@,
            ActionModel::OpenApplication(target) => "Open "@ + target.shown(),
            ActionModel::HoldShortcut(combo) => "Hold "@ + combo.rendered(),
        }
    }

    /// The group an action belongs to.
    pub open spec fn category(self) -> Category {
        match self {
            ActionModel::Plain(Action::SetDpiPreset(_)) => Category::Dpi,
            ActionModel::Plain(action) => plain_category(action),
            ActionModel::OpenApplication(_) => Category::System,
            _ => Category::Editing,
        }
    }
}

impl Action {
    fn plain_label(&self) -> (label: &'static str)
        requires
            self.plain(),
        ensures
            label@ == plain_label(*self),
    {
        match self {
            Action::LeftClick => "Left Click",
            Action::RightClick => "Right Click",
            Action::MiddleClick => "Middle Click",
            Action::MouseBack => "Back (Button 4)",
            Action::MouseForward => "Forward (Button 5)",
            Action::Copy => "Copy",
            Action::Paste => "Paste",
            Action::Cut => "Cut",
            Action::Undo => "Undo",
            Action::Redo => "Redo",
            Action::SelectAll => "Select All",
            Action::Find => "Find",
            Action::Save => "Save",
            Action::BrowserBack => "Browser Back",
            Action::BrowserForward => "Browser Forward",
            Action::NewTab => "New Tab",
            Action::CloseTab => "Close Tab",
            Action::ReopenTab => "Reopen Tab",
            Action::NextTab => "Next Tab",
            Action::PrevTab => "Previous Tab",
            Action::ReloadPage => "Reload Page",
            Action::MissionControl => "Mission Control",
            Action::AppExpose => "App Exposé",
            Action::PreviousDesktop => "Previous Desktop",
            Action::NextDesktop => "Next Desktop",
            Action::ShowDesktop => "Show Desktop",
            Action::LaunchpadShow => "Launchpad",
            Action::DoNothing => "Do Nothing",
            Action::LockScreen => "Lock Screen",
            Action::Screenshot => "Screenshot",
            Action::CaptureRegion => "Capture Region",
            Action::Sleep => "Sleep",
            Action::BrightnessUp => "Brightness Up",
            Action::BrightnessDown => "Brightness Down",
            Action::ShowActionsRing => "Actions Ring",
            Action::PlayPause => "Play / Pause",
            Action::NextTrack => "Next Track",
            Action::PrevTrack => "Previous Track",
            Action::VolumeUp => "Volume Up",
            Action::VolumeDown => "Volume Down",
            Action::MuteVolume => "Mute",
            Action::CycleDpiPresets => "Cycle DPI Presets",
            Action::ToggleSmartShift => "Toggle SmartShift",
            Action::ScrollUp => "Scroll Up",
            Action::ScrollDown => "Scroll Down",
            Action::HorizontalScrollLeft => "Scroll Left",
            Action::HorizontalScrollRight => "Scroll Right",
            _ => "",
        }
    }

    /// The label shown for the action.
    ///
    /// The last preset has no number of its own.
    pub fn label(&self) -> (label: String)
        requires
            *self != Action::SetDpiPreset(255),
        ensures
            label@ == self@.label(),
    {
        match self {
            Action::SetDpiPreset(index) => {
                let mut label = "DPI Preset ".to_owned();
                push_decimal(&mut label, (*index + 1) as u64);
                label
            },
            Action::CustomShortcut(combo) => combo.rendered_label(),
            Action::TypeText(text) => {
                let mut label = "Type \"".to_owned();
                label.append(text.as_str());
                label.append("\"");
                label
            },
            Action::RunAppleScript(_) => "Run AppleScript".to_owned(),
            Action::RunShellCommand(_) => "Run Command".to_owned(),
            Action::Workflow(steps) => {
                let mut label = "Workflow (".to_owned();
                push_decimal(&mut label, steps.len() as u64);
                label.append(" steps)");
                label
            },
            Action::OpenApplication(target) => {
                let mut label = "Open ".to_owned();
                label.append(target.display_name());
                label
            },
            Action::HoldShortcut(combo) => {
                let mut label = "Hold ".to_owned();
                label.append(combo.rendered_label().as_str());
                label
            },
            _ => self.plain_label().to_owned(),
        }
    }

    /// The catalog key of the label, for an action that carries nothing.
    pub fn translation_key(&self) -> (key: Option<&'static str>)
        ensures
            key is Some <==> self.plain(),
            key matches Some(k) ==> k@ == plain_translation_key(*self),
    {
        match self {
            Action::LeftClick => Some("actions.left_click"),
            Action::RightClick => Some("actions.right_click"),
            Action::MiddleClick => Some("actions.middle_click"),
            Action::MouseBack => Some("actions.back_button_4"),
            Action::MouseForward => Some("actions.forward_button_5"),
            Action::Copy => Some("common.copy"),
            Action::Paste => Some("common.paste"),
            Action::Cut => Some("common.cut"),
            Action::Undo => Some("common.undo"),
            Action::Redo => Some("common.redo"),
            Action::SelectAll => Some("common.select_all"),
            Action::Find => Some("actions.find"),
            Action::Save => Some("common.save"),
            Action::BrowserBack => Some("actions.browser_back"),
            Action::BrowserForward => Some("actions.browser_forward"),
            Action::NewTab => Some("actions.new_tab"),
            Action::CloseTab => Some("actions.close_tab"),
            Action::ReopenTab => Some("actions.reopen_tab"),
            Action::NextTab => Some("actions.next_tab"),
            Action::PrevTab => Some("actions.previous_tab"),
            Action::ReloadPage => Some("actions.reload_page"),
            Action::MissionControl => Some("actions.mission_control"),
            Action::AppExpose => Some("actions.app_expose"),
            Action::PreviousDesktop => Some("actions.previous_desktop"),
            Action::NextDesktop => Some("actions.next_desktop"),
            Action::ShowDesktop => Some("actions.show_desktop"),
            Action::LaunchpadShow => Some("actions.launchpad"),
            Action::DoNothing => Some("pointer.do_nothing"),
            Action::LockScreen => Some("actions.lock_screen"),
            Action::Screenshot => Some("actions.screenshot"),
            Action::CaptureRegion => Some("actions.capture_region"),
            Action::Sleep => Some("actions.sleep"),
            Action::BrightnessUp => Some("actions.brightness_up"),
            Action::BrightnessDown => Some("actions.brightness_down"),
            Action::ShowActionsRing => Some("action_ring.actions_ring"),
            Action::PlayPause => Some("actions.play_pause"),
            Action::NextTrack => Some("actions.next_track"),
            Action::PrevTrack => Some("actions.previous_track"),
            Action::VolumeUp => Some("actions.volume_up"),
            Action::VolumeDown => Some("actions.volume_down"),
            Action::MuteVolume => Some("actions.mute"),
            Action::CycleDpiPresets => Some("pointer.cycle_dpi_presets"),
            Action::ToggleSmartShift => Some("pointer.toggle_smartshift"),
            Action::ScrollUp => Some("actions.scroll_up"),
            Action::ScrollDown => Some("actions.scroll_down"),
            Action::HorizontalScrollLeft => Some("actions.scroll_left"),
            Action::HorizontalScrollRight => Some("actions.scroll_right"),
            _ => None,
        }
    }

    /// The catalog key that belongs to the label of an action that carries
    /// nothing.
    pub fn translation_key_for_label(label: &str) -> (key: Option<&'static str>)
        ensures
            match key {
                Some(k) => exists|i: int|
                    0 <= i < offered().len() && label@ == plain_label(#[trigger] offered()[i])
                        && k@ == plain_translation_key(offered()[i]),
                None => forall|i: int|
                    0 <= i < offered().len() ==> label@ != plain_label(#[trigger] offered()[i]),
            },
    {
        let catalog = Action::catalog();
        let mut i: usize = 0;
        while i < catalog.len()
            invariant
                catalog@ == offered(),
                i <= catalog@.len(),
                forall|j: int| 0 <= j < i ==> label@ != plain_label(#[trigger] offered()[j]),
                forall|j: int| 0 <= j < offered().len() ==> (#[trigger] offered()[j]).plain(),
            decreases catalog@.len() - i,
        {
            if same_text(label, catalog[i].plain_label()) {
                return catalog[i].translation_key();
            }
            i += 1;
        }
        None
    }

    /// The group the action is offered in.
    pub fn category(&self) -> (category: Category)
        ensures
            category == self@.category(),
    {
        match self {
            Action::LeftClick => Category::Mouse,
            Action::RightClick => Category::Mouse,
            Action::MiddleClick => Category::Mouse,
            Action::MouseBack => Category::Mouse,
            Action::MouseForward => Category::Mouse,
            Action::Copy => Category::Editing,
            Action::Paste => Category::Editing,
            Action::Cut => Category::Editing,
            Action::Undo => Category::Editing,
            Action::Redo => Category::Editing,
            Action::SelectAll => Category::Editing,
            Action::Find => Category::Editing,
            Action::Save => Category::Editing,
            Action::BrowserBack => Category::Browser,
            Action::BrowserForward => Category::Browser,
            Action::NewTab => Category::Browser,
            Action::CloseTab => Category::Browser,
            Action::ReopenTab => Category::Browser,
            Action::NextTab => Category::Browser,
            Action::PrevTab => Category::Browser,
            Action::ReloadPage => Category::Browser,
            Action::MissionControl => Category::Navigation,
            Action::AppExpose => Category::Navigation,
            Action::PreviousDesktop => Category::Navigation,
            Action::NextDesktop => Category::Navigation,
            Action::ShowDesktop => Category::Navigation,
            Action::LaunchpadShow => Category::Navigation,
            Action::DoNothing => Category::System,
            Action::LockScreen => Category::System,
            Action::Screenshot => Category::System,
            Action::CaptureRegion => Category::System,
            Action::Sleep => Category::System,
            Action::BrightnessUp => Category::System,
            Action::BrightnessDown => Category::System,
            Action::ShowActionsRing => Category::System,
            Action::PlayPause => Category::Media,
            Action::NextTrack => Category::Media,
            Action::PrevTrack => Category::Media,
            Action::VolumeUp => Category::Media,
            Action::VolumeDown => Category::Media,
            Action::MuteVolume => Category::Media,
            Action::CycleDpiPresets => Category::Dpi,
            Action::ToggleSmartShift => Category::Dpi,
            Action::ScrollUp => Category::Scroll,
            Action::ScrollDown => Category::Scroll,
            Action::HorizontalScrollLeft => Category::Scroll,
            Action::HorizontalScrollRight => Category::Scroll,
            Action::CustomShortcut(_)
            | Action::TypeText(_)
            | Action::RunAppleScript(_)
            | Action::RunShellCommand(_)
            | Action::Workflow(_)
            | Action::HoldShortcut(_) => Category::Editing,
            Action::SetDpiPreset(_) => Category::Dpi,
            Action::OpenApplication(_) => Category::System,
        }
    }

    /// Every action that can be picked from a list, in a fixed order.
    pub fn catalog() -> (catalog: Vec<Action>)
        ensures
            catalog@ == offered(),
            forall|i: int| 0 <= i < catalog@.len() ==> (#[trigger] catalog@[i]).plain(),
    {
        let catalog = vec![
            Action::LeftClick,
            Action::RightClick,
            Action::MiddleClick,
            Action::MouseBack,
            Action::MouseForward,
            Action::Copy,
            Action::Paste,
            Action::Cut,
            Action::Undo,
            Action::Redo,
            Action::SelectAll,
            Action::Find,
            Action::Save,
            Action::BrowserBack,
            Action::BrowserForward,
            Action::NewTab,
            Action::CloseTab,
            Action::ReopenTab,
            Action::NextTab,
            Action::PrevTab,
            Action::ReloadPage,
            Action::MissionControl,
            Action::AppExpose,
            Action::PreviousDesktop,
            Action::NextDesktop,
            Action::ShowDesktop,
            Action::LaunchpadShow,
            Action::DoNothing,
            Action::LockScreen,
            Action::Screenshot,
            Action::CaptureRegion,
            Action::Sleep,
            Action::BrightnessUp,
            Action::BrightnessDown,
            Action::ShowActionsRing,
            Action::PlayPause,
            Action::NextTrack,
            Action::PrevTrack,
            Action::VolumeUp,
            Action::VolumeDown,
            Action::MuteVolume,
            Action::CycleDpiPresets,
            Action::ToggleSmartShift,
            Action::ScrollUp,
            Action::ScrollDown,
            Action::HorizontalScrollLeft,
            Action::HorizontalScrollRight,
        ];
        assert(catalog@ =~= offered());
        catalog
    }
}

impl Category {
    /// The name shown for the group.
    pub open spec fn name(self) -> Seq<char> {
        match self {
            Category::Mouse => "Mouse"@,
            Category::Editing => "Editing"@,
            Category::Browser => "Browser"@,
            Category::Navigation => "Navigation"@,
            Category::System => "System"@,
            Category::Media => "Media"@,
            Category::Dpi => "DPI"@,
            Category::Scroll => "Scroll"@,
        }
    }

    /// The name shown for the group.
    pub fn label(self) -> (label: &'static str)
        ensures
            label@ == self.name(),
    {
        match self {
            Category::Mouse => "Mouse",
            Category::Editing => "Editing",
            Category::Browser => "Browser",
            Category::Navigation => "Navigation",
            Category::System => "System",
            Category::Media => "Media",
            Category::Dpi => "DPI",
            Category::Scroll => "Scroll",
        }
    }
}

/// Every group of actions is called by its own name, and by that of no other.
pub proof fn law_a_group_is_called_by_its_own_name(category: Category)
    ensures
        category.name() == "Mouse"@ <==> category is Mouse,
        category.name() == "Editing"@ <==> category is Editing,
        category.name() == "Browser"@ <==> category is Browser,
        category.name() == "Navigation"@ <==> category is Navigation,
        category.name() == "System"@ <==> category is System,
        category.name() == "Media"@ <==> category is Media,
        category.name() == "DPI"@ <==> category is Dpi,
        category.name() == "Scroll"@ <==> category is Scroll,
{
    reveal_strlit("Mouse");
    reveal_strlit("Editing");
    reveal_strlit("Browser");
    reveal_strlit("Navigation");
    reveal_strlit("System");
    reveal_strlit("Media");
    reveal_strlit("DPI");
    reveal_strlit("Scroll");
    assert("Mouse"@.len() == 5);
    assert("Editing"@.len() == 7);
    assert("Browser"@.len() == 7);
    assert("Navigation"@.len() == 10);
    assert("System"@.len() == 6);
    assert("Media"@.len() == 5);
    assert("DPI"@.len() == 3);
    assert("Scroll"@.len() == 6);
    assert("Mouse"@[1] != "Media"@[1]);
    assert("Editing"@[0] != "Browser"@[0]);
    assert("System"@[1] != "Scroll"@[1]);
}

/// A label as a catalog key spells it: in small letters, with lines for spaces.
pub open spec fn spelled(label: Seq<char>) -> Seq<char> {
    label.map_values(|c: char| if c == ' ' { '_' } else { small_letter(c) })
}

/// Whether the label of an action has anything in it but plain letters and
/// spaces.
pub open spec fn oddly_spelled(action: Action) -> bool {
    action is MouseBack || action is MouseForward || action is AppExpose || action is PlayPause
}

/// The catalog key of an action that carries nothing ends in the action's label,
/// as keys are spelled; that of a label with other signs in it begins as the
/// label does, behind the dot.
pub proof fn law_a_catalog_key_spells_its_label(action: Action)
    requires
        action.plain(),
    ensures
        ({
            let key = plain_translation_key(action);
            let label = plain_label(action);
            &&& !oddly_spelled(action) ==> key.len() >= label.len() && key.skip(
                key.len() - label.len(),
            ) == spelled(label)
            &&& oddly_spelled(action) ==> key.subrange(8, 12) == spelled(label).take(4)
        }),
{
    match action {
        Action::LeftClick => {
            reveal_strlit("actions.left_click");
            reveal_strlit("Left Click");
            assert("actions.left_click"@.skip(8) =~= spelled("Left Click"@));
        },
        Action::RightClick => {
            reveal_strlit("actions.right_click");
            reveal_strlit("Right Click");
            assert("actions.right_click"@.skip(8) =~= spelled("Right Click"@));
        },
        Action::MiddleClick => {
            reveal_strlit("actions.middle_click");
            reveal_strlit("Middle Click");
            assert("actions.middle_click"@.skip(8) =~= spelled("Middle Click"@));
        },
        Action::MouseBack => {
            reveal_strlit("Back (Button 4)");
            reveal_strlit("actions.back_button_4");
            assert("actions.back_button_4"@.subrange(8, 12) =~= spelled("Back (Button 4)"@).take(4));
        },
        Action::MouseForward => {
            reveal_strlit("Forward (Button 5)");
            reveal_strlit("actions.forward_button_5");
            assert("actions.forward_button_5"@.subrange(8, 12) =~= spelled("Forward (Button 5)"@).take(4));
        },
        Action::Copy => {
            reveal_strlit("common.copy");
            reveal_strlit("Copy");
            assert("common.copy"@.skip(7) =~= spelled("Copy"@));
        },
        Action::Paste => {
            reveal_strlit("common.paste");
            reveal_strlit("Paste");
            assert("common.paste"@.skip(7) =~= spelled("Paste"@));
        },
        Action::Cut => {
            reveal_strlit("common.cut");
            reveal_strlit("Cut");
            assert("common.cut"@.skip(7) =~= spelled("Cut"@));
        },
        Action::Undo => {
            reveal_strlit("common.undo");
            reveal_strlit("Undo");
            assert("common.undo"@.skip(7) =~= spelled("Undo"@));
        },
        Action::Redo => {
            reveal_strlit("common.redo");
            reveal_strlit("Redo");
            assert("common.redo"@.skip(7) =~= spelled("Redo"@));
        },
        Action::SelectAll => {
            reveal_strlit("common.select_all");
            reveal_strlit("Select All");
            assert("common.select_all"@.skip(7) =~= spelled("Select All"@));
        },
        Action::Find => {
            reveal_strlit("actions.find");
            reveal_strlit("Find");
            assert("actions.find"@.skip(8) =~= spelled("Find"@));
        },
        Action::Save => {
            reveal_strlit("common.save");
            reveal_strlit("Save");
            assert("common.save"@.skip(7) =~= spelled("Save"@));
        },
        Action::BrowserBack => {
            reveal_strlit("actions.browser_back");
            reveal_strlit("Browser Back");
            assert("actions.browser_back"@.skip(8) =~= spelled("Browser Back"@));
        },
        Action::BrowserForward => {
            reveal_strlit("actions.browser_forward");
            reveal_strlit("Browser Forward");
            assert("actions.browser_forward"@.skip(8) =~= spelled("Browser Forward"@));
        },
        Action::NewTab => {
            reveal_strlit("actions.new_tab");
            reveal_strlit("New Tab");
            assert("actions.new_tab"@.skip(8) =~= spelled("New Tab"@));
        },
        Action::CloseTab => {
            reveal_strlit("actions.close_tab");
            reveal_strlit("Close Tab");
            assert("actions.close_tab"@.skip(8) =~= spelled("Close Tab"@));
        },
        Action::ReopenTab => {
            reveal_strlit("actions.reopen_tab");
            reveal_strlit("Reopen Tab");
            assert("actions.reopen_tab"@.skip(8) =~= spelled("Reopen Tab"@));
        },
        Action::NextTab => {
            reveal_strlit("actions.next_tab");
            reveal_strlit("Next Tab");
            assert("actions.next_tab"@.skip(8) =~= spelled("Next Tab"@));
        },
        Action::PrevTab => {
            reveal_strlit("actions.previous_tab");
            reveal_strlit("Previous Tab");
            assert("actions.previous_tab"@.skip(8) =~= spelled("Previous Tab"@));
        },
        Action::ReloadPage => {
            reveal_strlit("actions.reload_page");
            reveal_strlit("Reload Page");
            assert("actions.reload_page"@.skip(8) =~= spelled("Reload Page"@));
        },
        Action::MissionControl => {
            reveal_strlit("actions.mission_control");
            reveal_strlit("Mission Control");
            assert("actions.mission_control"@.skip(8) =~= spelled("Mission Control"@));
        },
        Action::AppExpose => {
            reveal_strlit("App Exposé");
            reveal_strlit("actions.app_expose");
            assert("actions.app_expose"@.subrange(8, 12) =~= spelled("App Exposé"@).take(4));
        },
        Action::PreviousDesktop => {
            reveal_strlit("actions.previous_desktop");
            reveal_strlit("Previous Desktop");
            assert("actions.previous_desktop"@.skip(8) =~= spelled("Previous Desktop"@));
        },
        Action::NextDesktop => {
            reveal_strlit("actions.next_desktop");
            reveal_strlit("Next Desktop");
            assert("actions.next_desktop"@.skip(8) =~= spelled("Next Desktop"@));
        },
        Action::ShowDesktop => {
            reveal_strlit("actions.show_desktop");
            reveal_strlit("Show Desktop");
            assert("actions.show_desktop"@.skip(8) =~= spelled("Show Desktop"@));
        },
        Action::LaunchpadShow => {
            reveal_strlit("actions.launchpad");
            reveal_strlit("Launchpad");
            assert("actions.launchpad"@.skip(8) =~= spelled("Launchpad"@));
        },
        Action::DoNothing => {
            reveal_strlit("pointer.do_nothing");
            reveal_strlit("Do Nothing");
            assert("pointer.do_nothing"@.skip(8) =~= spelled("Do Nothing"@));
        },
        Action::LockScreen => {
            reveal_strlit("actions.lock_screen");
            reveal_strlit("Lock Screen");
            assert("actions.lock_screen"@.skip(8) =~= spelled("Lock Screen"@));
        },
        Action::Screenshot => {
            reveal_strlit("actions.screenshot");
            reveal_strlit("Screenshot");
            assert("actions.screenshot"@.skip(8) =~= spelled("Screenshot"@));
        },
        Action::CaptureRegion => {
            reveal_strlit("actions.capture_region");
            reveal_strlit("Capture Region");
            assert("actions.capture_region"@.skip(8) =~= spelled("Capture Region"@));
        },
        Action::Sleep => {
            reveal_strlit("actions.sleep");
            reveal_strlit("Sleep");
            assert("actions.sleep"@.skip(8) =~= spelled("Sleep"@));
        },
        Action::BrightnessUp => {
            reveal_strlit("actions.brightness_up");
            reveal_strlit("Brightness Up");
            assert("actions.brightness_up"@.skip(8) =~= spelled("Brightness Up"@));
        },
        Action::BrightnessDown => {
            reveal_strlit("actions.brightness_down");
            reveal_strlit("Brightness Down");
            assert("actions.brightness_down"@.skip(8) =~= spelled("Brightness Down"@));
        },
        Action::ShowActionsRing => {
            reveal_strlit("action_ring.actions_ring");
            reveal_strlit("Actions Ring");
            assert("action_ring.actions_ring"@.skip(12) =~= spelled("Actions Ring"@));
        },
        Action::PlayPause => {
            reveal_strlit("Play / Pause");
            reveal_strlit("actions.play_pause");
            assert("actions.play_pause"@.subrange(8, 12) =~= spelled("Play / Pause"@).take(4));
        },
        Action::NextTrack => {
            reveal_strlit("actions.next_track");
            reveal_strlit("Next Track");
            assert("actions.next_track"@.skip(8) =~= spelled("Next Track"@));
        },
        Action::PrevTrack => {
            reveal_strlit("actions.previous_track");
            reveal_strlit("Previous Track");
            assert("actions.previous_track"@.skip(8) =~= spelled("Previous Track"@));
        },
        Action::VolumeUp => {
            reveal_strlit("actions.volume_up");
            reveal_strlit("Volume Up");
            assert("actions.volume_up"@.skip(8) =~= spelled("Volume Up"@));
        },
        Action::VolumeDown => {
            reveal_strlit("actions.volume_down");
            reveal_strlit("Volume Down");
            assert("actions.volume_down"@.skip(8) =~= spelled("Volume Down"@));
        },
        Action::MuteVolume => {
            reveal_strlit("actions.mute");
            reveal_strlit("Mute");
            assert("actions.mute"@.skip(8) =~= spelled("Mute"@));
        },
        Action::CycleDpiPresets => {
            reveal_strlit("pointer.cycle_dpi_presets");
            reveal_strlit("Cycle DPI Presets");
            assert("pointer.cycle_dpi_presets"@.skip(8) =~= spelled("Cycle DPI Presets"@));
        },
        Action::ToggleSmartShift => {
            reveal_strlit("pointer.toggle_smartshift");
            reveal_strlit("Toggle SmartShift");
            assert("pointer.toggle_smartshift"@.skip(8) =~= spelled("Toggle SmartShift"@));
        },
        Action::ScrollUp => {
            reveal_strlit("actions.scroll_up");
            reveal_strlit("Scroll Up");
            assert("actions.scroll_up"@.skip(8) =~= spelled("Scroll Up"@));
        },
        Action::ScrollDown => {
            reveal_strlit("actions.scroll_down");
            reveal_strlit("Scroll Down");
            assert("actions.scroll_down"@.skip(8) =~= spelled("Scroll Down"@));
        },
        Action::HorizontalScrollLeft => {
            reveal_strlit("actions.scroll_left");
            reveal_strlit("Scroll Left");
            assert("actions.scroll_left"@.skip(8) =~= spelled("Scroll Left"@));
        },
        Action::HorizontalScrollRight => {
            reveal_strlit("actions.scroll_right");
            reveal_strlit("Scroll Right");
            assert("actions.scroll_right"@.skip(8) =~= spelled("Scroll Right"@));
        },
        _ => {},
    }
}

}
