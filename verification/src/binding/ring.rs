//! The Actions Ring: up to eight actions around the pointer.

use vstd::prelude::*;

use crate::binding::action::{Action, ActionModel};
use crate::ordered::{KeyOrder, OrderedKey, OrderedMap, Replicate};

verus! {

/// A place on the ring.
#[derive(Clone, Copy, Debug, PartialEq, Eq, PartialOrd, Ord, Hash, Structural)]
pub enum ActionRingSlot {
    North,
    NorthEast,
    East,
    SouthEast,
    South,
    SouthWest,
    West,
    NorthWest,
}

/// A picture for a place on the ring.
#[derive(Clone, Copy, Debug, PartialEq, Eq, Hash, Structural)]
pub enum ActionRingIcon {
    Pointer,
    Mouse,
    MouseBack,
    MouseForward,
    Copy,
    Paste,
    Cut,
    Undo,
    Redo,
    SelectAll,
    Search,
    Save,
    ArrowLeft,
    ArrowRight,
    NewTab,
    CloseTab,
    ReopenTab,
    NextTab,
    PreviousTab,
    Reload,
    Grid,
    Layers,
    PreviousDesktop,
    NextDesktop,
    Monitor,
    Applications,
    Ban,
    Lock,
    Camera,
    Play,
    NextTrack,
    PreviousTrack,
    Volume,
    VolumeDown,
    Mute,
    Gauge,
    Refresh,
    ArrowUp,
    ArrowDown,
    ScrollLeft,
    ScrollRight,
}

/// An action that may stand on the ring.
#[derive(Clone, Debug, PartialEq, Eq)]
pub struct RingAction {
    /// The action.
    pub action: Action,
}

/// Why an action may not stand on the ring.
#[derive(Clone, Copy, Debug, PartialEq, Eq, Structural)]
pub enum RingActionError {
    /// The action would open the ring again.
    RecursiveTrigger,
}

/// Which action, and which picture, stands where.
#[derive(Clone, Debug, PartialEq, Eq)]
pub struct ActionRingLayout {
    /// The action of each place.
    pub actions: OrderedMap<ActionRingSlot, RingAction>,
    /// The picture chosen for a place, where it is not the action's own.
    pub icons: OrderedMap<ActionRingSlot, ActionRingIcon>,
}

/// Actions Ring settings.
#[derive(Clone, Debug, PartialEq, Eq)]
pub struct ActionRingConfig {
    /// Whether the ring opens at all.
    pub enabled: bool,
    /// Whether hovering and activating buzz.
    pub haptics: bool,
    /// The layout used for every application.
    pub default: ActionRingLayout,
}

/// The model of an [`ActionRingConfig`].
#[verifier::ext_equal]
pub ghost struct RingModel {
    pub enabled: bool,
    pub haptics: bool,
    pub actions: Map<ActionRingSlot, ActionModel>,
    pub icons: Map<ActionRingSlot, ActionRingIcon>,
}

impl ActionRingSlot {
    /// The position of a place, clockwise from the top.
    pub open spec fn position(self) -> int {
        match self {
            ActionRingSlot::North => 0,
            ActionRingSlot::NorthEast => 1,
            ActionRingSlot::East => 2,
            ActionRingSlot::SouthEast => 3,
            ActionRingSlot::South => 4,
            ActionRingSlot::SouthWest => 5,
            ActionRingSlot::West => 6,
            ActionRingSlot::NorthWest => 7,
        }
    }

    fn rank(self) -> (rank: u8)
        ensures
            rank == self.position(),
    {
        match self {
            ActionRingSlot::North => 0,
            ActionRingSlot::NorthEast => 1,
            ActionRingSlot::East => 2,
            ActionRingSlot::SouthEast => 3,
            ActionRingSlot::South => 4,
            ActionRingSlot::SouthWest => 5,
            ActionRingSlot::West => 6,
            ActionRingSlot::NorthWest => 7,
        }
    }
}

impl View for ActionRingSlot {
    type V = ActionRingSlot;

    open spec fn view(&self) -> ActionRingSlot {
        *self
    }
}

impl Replicate for ActionRingSlot {
    fn replicate(&self) -> (copy: Self) {
        *self
    }
}

impl OrderedKey for ActionRingSlot {
    type Probe = ActionRingSlot;

    open spec fn before(a: ActionRingSlot, b: ActionRingSlot) -> bool {
        a.position() < b.position()
    }

    proof fn before_irreflexive(a: ActionRingSlot) {
    }

    proof fn before_transitive(a: ActionRingSlot, b: ActionRingSlot, c: ActionRingSlot) {
    }

    proof fn before_total(a: ActionRingSlot, b: ActionRingSlot) {
    }

    fn order_against(&self, probe: &ActionRingSlot) -> (order: KeyOrder) {
        let own: u8 = self.rank();
        let other: u8 = probe.rank();
        if own < other {
            KeyOrder::Before
        } else if own > other {
            KeyOrder::After
        } else {
            KeyOrder::Same
        }
    }

    fn as_probe(&self) -> (probe: &ActionRingSlot) {
        self
    }
}

impl View for ActionRingIcon {
    type V = ActionRingIcon;

    open spec fn view(&self) -> ActionRingIcon {
        *self
    }
}

impl Replicate for ActionRingIcon {
    fn replicate(&self) -> (copy: Self) {
        *self
    }
}

impl View for RingAction {
    type V = ActionModel;

    open spec fn view(&self) -> ActionModel {
        self.action@
    }
}

impl Replicate for RingAction {
    fn replicate(&self) -> (copy: Self) {
        RingAction { action: self.action.replicate() }
    }
}

impl RingAction {
    /// An action for the ring; the ring cannot open itself.
    pub fn new(action: Action) -> (result: Result<RingAction, RingActionError>)
        ensures
            match result {
                Ok(ring) => action != Action::ShowActionsRing && ring.action == action,
                Err(error) => action == Action::ShowActionsRing && error
                    == RingActionError::RecursiveTrigger,
            },
    {
        if matches!(action, Action::ShowActionsRing) {
            Err(RingActionError::RecursiveTrigger)
        } else {
            Ok(RingAction { action })
        }
    }
}

impl View for ActionRingConfig {
    type V = RingModel;

    open spec fn view(&self) -> RingModel {
        RingModel {
            enabled: self.enabled,
            haptics: self.haptics,
            actions: self.default.actions@,
            icons: self.default.icons@,
        }
    }
}

impl Replicate for ActionRingConfig {
    fn replicate(&self) -> (copy: Self) {
        ActionRingConfig {
            enabled: self.enabled,
            haptics: self.haptics,
            default: ActionRingLayout {
                actions: self.default.actions.replicate(),
                icons: self.default.icons.replicate(),
            },
        }
    }
}

impl RingModel {
    /// A ring nobody has configured.
    pub open spec fn unset() -> RingModel {
        RingModel { enabled: true, haptics: true, actions: Map::empty(), icons: Map::empty() }
    }

    /// The ring with one place changed.
    pub open spec fn with_action(self, slot: ActionRingSlot, action: Option<ActionModel>) -> Self {
        RingModel {
            actions: match action {
                Some(a) => self.actions.insert(slot, a),
                None => self.actions.remove(slot),
            },
            ..self
        }
    }

    /// The ring with one picture changed.
    pub open spec fn with_icon(self, slot: ActionRingSlot, icon: Option<ActionRingIcon>) -> Self {
        RingModel {
            icons: match icon {
                Some(i) => self.icons.insert(slot, i),
                None => self.icons.remove(slot),
            },
            ..self
        }
    }
}

impl Default for ActionRingConfig {
    fn default() -> (ring: Self)
        ensures
            ring@ == RingModel::unset(),
    {
        ActionRingConfig {
            enabled: true,
            haptics: true,
            default: ActionRingLayout { actions: OrderedMap::new(), icons: OrderedMap::new() },
        }
    }
}

impl ActionRingConfig {
    /// Whether nobody has configured this ring.
    pub fn is_default(&self) -> (yes: bool)
        ensures
            yes == (self@ == RingModel::unset()),
    {
        self.enabled && self.haptics && self.default.actions.is_empty()
            && self.default.icons.is_empty()
    }

    /// Put an action on a place, or clear the place.
    pub fn set_action(&mut self, slot: ActionRingSlot, action: Option<RingAction>)
        ensures
            final(self)@ == old(self)@.with_action(slot, crate::ordered::opt(action)),
    {
        match action {
            Some(action) => {
                let _ = self.default.actions.insert(slot, action);
            },
            None => {
                let _ = self.default.actions.remove(&slot);
            },
        }
    }

    /// Choose a picture for a place, or go back to the action's own.
    pub fn set_icon(&mut self, slot: ActionRingSlot, icon: Option<ActionRingIcon>)
        ensures
            final(self)@ == old(self)@.with_icon(slot, icon),
    {
        match icon {
            Some(icon) => {
                let _ = self.default.icons.insert(slot, icon);
            },
            None => {
                let _ = self.default.icons.remove(&slot);
            },
        }
    }
}

/// Changing one place or one picture of a ring changes that one, and shows;
/// clearing it empties it.
pub proof fn law_one_place_is_changed_at_a_time(
    ring: RingModel,
    slot: ActionRingSlot,
    other: ActionRingSlot,
    action: ActionModel,
    icon: ActionRingIcon,
)
    ensures
        ({
            let set = ring.with_action(slot, Some(action));
            let cleared = ring.with_action(slot, None);
            let pictured = ring.with_icon(slot, Some(icon));
            let bare = ring.with_icon(slot, None);
            &&& set.actions.contains_key(slot) && set.actions[slot] == action
            &&& !cleared.actions.contains_key(slot)
            &&& pictured.icons.contains_key(slot) && pictured.icons[slot] == icon
            &&& !bare.icons.contains_key(slot)
            &&& other != slot ==> {
                &&& set.actions.contains_key(other) == ring.actions.contains_key(other)
                &&& cleared.actions.contains_key(other) == ring.actions.contains_key(other)
                &&& ring.actions.contains_key(other) ==> set.actions[other]
                    == ring.actions[other] && cleared.actions[other] == ring.actions[other]
                &&& pictured.icons.contains_key(other) == ring.icons.contains_key(other)
                &&& bare.icons.contains_key(other) == ring.icons.contains_key(other)
                &&& ring.icons.contains_key(other) ==> pictured.icons[other]
                    == ring.icons[other] && bare.icons[other] == ring.icons[other]
            }
            &&& set.icons == ring.icons && cleared.icons == ring.icons
            &&& pictured.actions == ring.actions && bare.actions == ring.actions
            &&& set.enabled == ring.enabled && set.haptics == ring.haptics
            &&& cleared.enabled == ring.enabled && cleared.haptics == ring.haptics
            &&& pictured.enabled == ring.enabled && pictured.haptics == ring.haptics
            &&& bare.enabled == ring.enabled && bare.haptics == ring.haptics
        }),
        RingModel::unset().enabled,
        RingModel::unset().haptics,
        !RingModel::unset().actions.contains_key(slot),
        !RingModel::unset().icons.contains_key(slot),
{
}

}
