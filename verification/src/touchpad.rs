//! Raw touchpad frames and the gestures recognized in them.
//!
//! Positions are integer micrometres and times are integer microseconds, so the
//! thresholds do not depend on a touchpad's own coordinate range.

use vstd::prelude::*;

use crate::binding::button::ButtonId;
use crate::geometry::{
    centroid, contact_distance, spread, vector_length, Point,
};

verus! {

/// Longest a tap may last.
pub const TAP_MAX_DURATION_US: u64 = 250_000;

/// Farthest a finger may travel in a tap.
pub const TAP_MAX_TRAVEL_UM: u64 = 3_000;

/// Shortest distance of a swipe.
pub const SWIPE_MIN_DISTANCE_UM: u64 = 10_000;

/// Slowest swipe.
pub const SWIPE_MIN_SPEED_UM_PER_SECOND: u64 = 50_000;

/// Shortest time a horizontal swipe may take.
pub const HORIZONTAL_SWIPE_MIN_DURATION_US: u64 = 50_000;

/// Shortest time a vertical swipe may take.
pub const VERTICAL_SWIPE_MIN_DURATION_US: u64 = 35_000;

/// Movement across a swipe that is always allowed.
pub const SWIPE_CROSS_AXIS_FLOOR_UM: u64 = 3_000;

/// Smallest change of spread that makes a pinch.
pub const PINCH_MIN_SPREAD_CHANGE_UM: u64 = 8_000;

/// Smallest change of spread that makes a pinch, as a share of the first spread.
pub const PINCH_MIN_SPREAD_PERCENT: u64 = 8;

/// One motion dominates another that is less than two thirds of it.
pub const MOTION_DOMINANCE_NUMERATOR: u64 = 3;

/// See [`MOTION_DOMINANCE_NUMERATOR`].
pub const MOTION_DOMINANCE_DENOMINATOR: u64 = 2;

/// One normalized touch contact.
#[derive(Clone, Copy, Debug, PartialEq, Eq, Hash, Structural)]
pub struct TouchContact {
    /// Controller-assigned contact identifier.
    pub id: u8,
    /// Horizontal position from the left edge, in micrometres.
    pub x_um: u32,
    /// Vertical position from the top edge, in micrometres.
    pub y_um: u32,
}

/// One complete, normalized touchpad frame.
#[derive(Clone, Debug, PartialEq, Eq)]
pub struct TouchFrame {
    /// Monotonic frame time, in microseconds.
    pub timestamp_us: u64,
    /// Whether the physical switch beneath the surface is pressed.
    pub button: bool,
    /// The contacts, which only [`TouchFrame::new`] puts together.
    pub contacts: FrameContacts,
}

/// The contacts of a frame, in ascending order of identifier.
#[derive(Debug, PartialEq, Eq)]
pub struct FrameContacts {
    list: Vec<TouchContact>,
}

impl View for FrameContacts {
    type V = Seq<TouchContact>;

    closed spec fn view(&self) -> Seq<TouchContact> {
        self.list@
    }
}

impl FrameContacts {
    #[verifier::type_invariant]
    spec fn inv(&self) -> bool {
        ascending_ids(self.list@)
    }
}

impl Clone for FrameContacts {
    fn clone(&self) -> (copy: Self)
        ensures
            copy@ == self@,
    {
        proof {
            use_type_invariant(self);
        }
        FrameContacts { list: copied(&self.list) }
    }
}

/// What a frame holds.
pub ghost struct FrameModel {
    pub timestamp_us: u64,
    pub button: bool,
    pub contacts: Seq<TouchContact>,
}

/// Invalid normalized frame input.
#[derive(Clone, Copy, Debug, PartialEq, Eq, Structural)]
pub enum TouchFrameError {
    /// Two contacts in one frame carried the same controller identifier.
    DuplicateContactId,
}

/// Whether the contacts stand in strictly ascending order of identifier.
pub open spec fn ascending_ids(contacts: Seq<TouchContact>) -> bool {
    forall|i: int, j: int|
        0 <= i < j < contacts.len() ==> (#[trigger] contacts[i]).id < (#[trigger] contacts[j]).id
}

/// Whether no two contacts share an identifier.
pub open spec fn distinct_ids(contacts: Seq<TouchContact>) -> bool {
    forall|i: int, j: int|
        0 <= i < j < contacts.len() ==> (#[trigger] contacts[i]).id != (#[trigger] contacts[j]).id
}

impl View for TouchFrame {
    type V = FrameModel;

    open spec fn view(&self) -> FrameModel {
        FrameModel {
            timestamp_us: self.timestamp_us,
            button: self.button,
            contacts: self.contacts@,
        }
    }
}

impl TouchFrame {
    /// Build a frame, sorting contacts by identifier and rejecting duplicates.
    pub fn new(timestamp_us: u64, button: bool, contacts: Vec<TouchContact>) -> (result: Result<
        Self,
        TouchFrameError,
    >)
        ensures
            result is Ok <==> distinct_ids(contacts@),
            match result {
                Ok(frame) => {
                    &&& frame@.timestamp_us == timestamp_us
                    &&& frame@.button == button
                    &&& ascending_ids(frame@.contacts)
                    &&& frame@.contacts.to_multiset() == contacts@.to_multiset()
                },
                Err(error) => error == TouchFrameError::DuplicateContactId,
            },
    {
        let mut sorted: Vec<TouchContact> = Vec::new();
        let mut i: usize = 0;
        proof {
            assert(contacts@.take(0) =~= Seq::<TouchContact>::empty());
        }
        while i < contacts.len()
            invariant
                i <= contacts@.len(),
                ascending_ids(sorted@),
                sorted@.to_multiset() == contacts@.take(i as int).to_multiset(),
                distinct_ids(contacts@.take(i as int)),
            decreases contacts@.len() - i,
        {
            let contact = contacts[i];
            let mut at: usize = 0;
            while at < sorted.len() && sorted[at].id < contact.id
                invariant
                    at <= sorted@.len(),
                    forall|j: int| 0 <= j < at ==> (#[trigger] sorted@[j]).id < contact.id,
                decreases sorted@.len() - at,
            {
                at += 1;
            }
            let ghost seen = contacts@.take(i as int);
            let ghost more = contacts@.take(i + 1);
            proof {
                assert(more =~= seen.push(contact));
            }
            if at < sorted.len() && sorted[at].id == contact.id {
                proof {
                    let twin = sorted@[at as int];
                    assert(sorted@.to_multiset().count(twin) > 0) by {
                        assert(sorted@.contains(twin));
                        broadcast use vstd::seq_lib::group_to_multiset_ensures;

                    }
                    assert(seen.contains(twin)) by {
                        broadcast use vstd::seq_lib::group_to_multiset_ensures;

                    }
                    let j = choose|j: int| 0 <= j < seen.len() && seen[j] == twin;
                    assert(contacts@[j].id == contacts@[i as int].id);
                }
                return Err(TouchFrameError::DuplicateContactId);
            }
            let ghost before = sorted@;
            proof {
                assert forall|j: int| 0 <= j < seen.len() implies (#[trigger] seen[j]).id
                    != contact.id by {
                    broadcast use vstd::seq_lib::group_to_multiset_ensures;

                    assert(seen.contains(seen[j]));
                    assert(before.to_multiset().count(seen[j]) > 0);
                    assert(before.contains(seen[j]));
                    let k = choose|k: int| 0 <= k < before.len() && before[k] == seen[j];
                    if k > at {
                        assert(before[at as int].id < before[k].id);
                    }
                }
                assert(distinct_ids(more));
            }
            sorted.insert(at, contact);
            proof {
                before.insert_ensures(at as int, contact);
                vstd::seq_lib::to_multiset_insert(before, at as int, contact);
                vstd::seq_lib::to_multiset_build(seen, contact);
            }
            i += 1;
        }
        assert(contacts@.take(i as int) =~= contacts@);
        Ok(TouchFrame { timestamp_us, button, contacts: FrameContacts { list: sorted } })
    }

    /// Monotonic frame time, in microseconds.
    pub fn timestamp_us(&self) -> (time: u64)
        ensures
            time == self@.timestamp_us,
    {
        self.timestamp_us
    }

    /// Whether the physical switch beneath the surface is pressed.
    pub fn button(&self) -> (pressed: bool)
        ensures
            pressed == self@.button,
    {
        self.button
    }

    /// Contacts in ascending order of identifier.
    pub fn contacts(&self) -> (contacts: &[TouchContact])
        ensures
            contacts@ == self@.contacts,
            ascending_ids(contacts@),
    {
        proof {
            use_type_invariant(&self.contacts);
        }
        self.contacts.list.as_slice()
    }
}

/// A recognized gesture.
#[derive(Clone, Copy, Debug, PartialEq, Eq, Hash, Structural)]
pub enum TouchpadGesture {
    /// Two-finger tap.
    TwoFingerTap,
    /// Two-finger pinch toward the centre.
    TwoFingerPinchIn,
    /// Two-finger pinch away from the centre.
    TwoFingerPinchOut,
    /// Three-finger tap.
    ThreeFingerTap,
    /// Three-finger upward swipe.
    ThreeFingerSwipeUp,
    /// Three-finger downward swipe.
    ThreeFingerSwipeDown,
    /// Three-finger leftward swipe.
    ThreeFingerSwipeLeft,
    /// Three-finger rightward swipe.
    ThreeFingerSwipeRight,
    /// Four-finger tap.
    FourFingerTap,
    /// Four-finger upward swipe.
    FourFingerSwipeUp,
    /// Four-finger downward swipe.
    FourFingerSwipeDown,
    /// Four-finger leftward swipe.
    FourFingerSwipeLeft,
    /// Four-finger rightward swipe.
    FourFingerSwipeRight,
    /// Four-finger pinch toward the centre.
    FourFingerPinchIn,
    /// Four-finger pinch away from the centre.
    FourFingerPinchOut,
}

impl TouchpadGesture {
    /// The binding trigger that belongs to a gesture.
    pub open spec fn trigger_button(self) -> ButtonId {
        match self {
            TouchpadGesture::TwoFingerTap => ButtonId::TouchpadTwoFingerTap,
            TouchpadGesture::TwoFingerPinchIn => ButtonId::TouchpadTwoFingerPinchIn,
            TouchpadGesture::TwoFingerPinchOut => ButtonId::TouchpadTwoFingerPinchOut,
            TouchpadGesture::ThreeFingerTap => ButtonId::TouchpadThreeFingerTap,
            TouchpadGesture::ThreeFingerSwipeUp => ButtonId::TouchpadThreeFingerSwipeUp,
            TouchpadGesture::ThreeFingerSwipeDown => ButtonId::TouchpadThreeFingerSwipeDown,
            TouchpadGesture::ThreeFingerSwipeLeft => ButtonId::TouchpadThreeFingerSwipeLeft,
            TouchpadGesture::ThreeFingerSwipeRight => ButtonId::TouchpadThreeFingerSwipeRight,
            TouchpadGesture::FourFingerTap => ButtonId::TouchpadFourFingerTap,
            TouchpadGesture::FourFingerSwipeUp => ButtonId::TouchpadFourFingerSwipeUp,
            TouchpadGesture::FourFingerSwipeDown => ButtonId::TouchpadFourFingerSwipeDown,
            TouchpadGesture::FourFingerSwipeLeft => ButtonId::TouchpadFourFingerSwipeLeft,
            TouchpadGesture::FourFingerSwipeRight => ButtonId::TouchpadFourFingerSwipeRight,
            TouchpadGesture::FourFingerPinchIn => ButtonId::TouchpadFourFingerPinchIn,
            TouchpadGesture::FourFingerPinchOut => ButtonId::TouchpadFourFingerPinchOut,
        }
    }

    /// How many fingers a gesture is made with.
    pub open spec fn fingers(self) -> int {
        match self {
            TouchpadGesture::TwoFingerTap
            | TouchpadGesture::TwoFingerPinchIn
            | TouchpadGesture::TwoFingerPinchOut => 2,
            TouchpadGesture::ThreeFingerTap
            | TouchpadGesture::ThreeFingerSwipeUp
            | TouchpadGesture::ThreeFingerSwipeDown
            | TouchpadGesture::ThreeFingerSwipeLeft
            | TouchpadGesture::ThreeFingerSwipeRight => 3,
            _ => 4,
        }
    }

    /// Binding trigger corresponding to this gesture.
    pub fn trigger(self) -> (button: ButtonId)
        ensures
            button == self.trigger_button(),
            button.touchpad(),
    {
        match self {
            TouchpadGesture::TwoFingerTap => ButtonId::TouchpadTwoFingerTap,
            TouchpadGesture::TwoFingerPinchIn => ButtonId::TouchpadTwoFingerPinchIn,
            TouchpadGesture::TwoFingerPinchOut => ButtonId::TouchpadTwoFingerPinchOut,
            TouchpadGesture::ThreeFingerTap => ButtonId::TouchpadThreeFingerTap,
            TouchpadGesture::ThreeFingerSwipeUp => ButtonId::TouchpadThreeFingerSwipeUp,
            TouchpadGesture::ThreeFingerSwipeDown => ButtonId::TouchpadThreeFingerSwipeDown,
            TouchpadGesture::ThreeFingerSwipeLeft => ButtonId::TouchpadThreeFingerSwipeLeft,
            TouchpadGesture::ThreeFingerSwipeRight => ButtonId::TouchpadThreeFingerSwipeRight,
            TouchpadGesture::FourFingerTap => ButtonId::TouchpadFourFingerTap,
            TouchpadGesture::FourFingerSwipeUp => ButtonId::TouchpadFourFingerSwipeUp,
            TouchpadGesture::FourFingerSwipeDown => ButtonId::TouchpadFourFingerSwipeDown,
            TouchpadGesture::FourFingerSwipeLeft => ButtonId::TouchpadFourFingerSwipeLeft,
            TouchpadGesture::FourFingerSwipeRight => ButtonId::TouchpadFourFingerSwipeRight,
            TouchpadGesture::FourFingerPinchIn => ButtonId::TouchpadFourFingerPinchIn,
            TouchpadGesture::FourFingerPinchOut => ButtonId::TouchpadFourFingerPinchOut,
        }
    }
}

/// Result of feeding one frame to [`TouchpadGestureRecognizer`].
#[derive(Clone, Copy, Debug, PartialEq, Eq, Structural)]
pub enum GestureRecognition {
    /// No gesture has committed yet.
    Pending,
    /// A gesture committed and should fire once.
    Gesture(TouchpadGesture),
    /// Common two-finger motion dominated the change of spread, so native
    /// scrolling owns this stroke and no action may fire.
    NativeScroll,
}

/// What is known of a stroke in progress.
pub ghost struct StrokeModel {
    /// The contacts of its first frame.
    pub starts: Seq<TouchContact>,
    /// The contacts of its latest frame.
    pub latest: Seq<TouchContact>,
    /// The time of its first frame.
    pub started_at_us: u64,
    /// The time of its latest frame.
    pub last_at_us: u64,
    /// The farthest any finger has been from where it started.
    pub max_travel_um: nat,
}

/// Where a recognizer stands.
pub ghost enum RecognizerModel {
    /// No finger is down.
    Idle,
    /// A stroke is being followed.
    Tracking(StrokeModel),
    /// The stroke has fired its gesture.
    Committed,
    /// The stroke can no longer fire.
    Cancelled,
}

/// The identifiers of the contacts, in order.
pub open spec fn ids_of(contacts: Seq<TouchContact>) -> Seq<u8> {
    contacts.map_values(|c: TouchContact| c.id)
}

/// The farthest any contact is from where it started.
pub open spec fn farthest(starts: Seq<TouchContact>, latest: Seq<TouchContact>) -> nat
    decreases starts.len(),
{
    if starts.len() == 0 || latest.len() == 0 {
        0
    } else {
        let rest = farthest(starts.drop_last(), latest.drop_last());
        let last = crate::geometry::distance(starts.last(), latest.last());
        if last > rest {
            last
        } else {
            rest
        }
    }
}

/// Whether one motion dominates another.
pub open spec fn dominates_motion(candidate: int, other: int) -> bool {
    candidate * MOTION_DOMINANCE_DENOMINATOR > other * MOTION_DOMINANCE_NUMERATOR
}

/// The absolute value.
pub open spec fn magnitude(value: int) -> int {
    if value < 0 {
        -value
    } else {
        value
    }
}

/// The larger of two values.
pub open spec fn larger(a: int, b: int) -> int {
    if a > b {
        a
    } else {
        b
    }
}

impl StrokeModel {
    /// How far the centre has moved to the right.
    pub open spec fn dx(self) -> int {
        crate::geometry::centre_x(self.latest) - crate::geometry::centre_x(self.starts)
    }

    /// How far the centre has moved down.
    pub open spec fn dy(self) -> int {
        crate::geometry::centre_y(self.latest) - crate::geometry::centre_y(self.starts)
    }

    /// How far the centre has moved.
    pub open spec fn centre_travel(self) -> int {
        crate::geometry::length(self.dx(), self.dy()) as int
    }

    /// How much the fingers have spread, negative when they drew together.
    pub open spec fn spread_growth(self) -> int {
        crate::geometry::spread_of(self.latest) - crate::geometry::spread_of(self.starts)
    }

    /// The change of spread that makes a pinch of this stroke.
    pub open spec fn pinch_change(self) -> int {
        larger(
            PINCH_MIN_SPREAD_CHANGE_UM as int,
            crate::geometry::spread_of(self.starts) * PINCH_MIN_SPREAD_PERCENT / 100,
        )
    }

    /// How long the stroke has lasted; zero while time has not advanced.
    pub open spec fn duration(self) -> int {
        larger(self.last_at_us - self.started_at_us, 0)
    }

    /// Whether the motion is mostly horizontal.
    pub open spec fn horizontal(self) -> bool {
        magnitude(self.dx()) > magnitude(self.dy())
    }

    /// Whether the motion is far, straight, long and fast enough for a swipe.
    pub open spec fn swipes(self) -> bool {
        let along = if self.horizontal() {
            magnitude(self.dx())
        } else {
            magnitude(self.dy())
        };
        let across = if self.horizontal() {
            magnitude(self.dy())
        } else {
            magnitude(self.dx())
        };
        let shortest = if self.horizontal() {
            HORIZONTAL_SWIPE_MIN_DURATION_US
        } else {
            VERTICAL_SWIPE_MIN_DURATION_US
        };
        &&& along >= SWIPE_MIN_DISTANCE_UM
        &&& across <= larger(SWIPE_CROSS_AXIS_FLOOR_UM as int, along * 40 / 100)
        &&& self.duration() >= shortest
        &&& along * 1_000_000 >= SWIPE_MIN_SPEED_UM_PER_SECOND * self.duration()
    }

    /// The swipe this stroke would be, with three or four fingers.
    pub open spec fn swipe(self) -> TouchpadGesture {
        let three = self.starts.len() == 3;
        if self.horizontal() {
            if self.dx() > 0 {
                if three {
                    TouchpadGesture::ThreeFingerSwipeRight
                } else {
                    TouchpadGesture::FourFingerSwipeRight
                }
            } else if three {
                TouchpadGesture::ThreeFingerSwipeLeft
            } else {
                TouchpadGesture::FourFingerSwipeLeft
            }
        } else if self.dy() > 0 {
            if three {
                TouchpadGesture::ThreeFingerSwipeDown
            } else {
                TouchpadGesture::FourFingerSwipeDown
            }
        } else if three {
            TouchpadGesture::ThreeFingerSwipeUp
        } else {
            TouchpadGesture::FourFingerSwipeUp
        }
    }

    /// The pinch this stroke would be, with two or four fingers.
    pub open spec fn pinch(self) -> TouchpadGesture {
        let outward = self.spread_growth() >= 0;
        if self.starts.len() == 2 {
            if outward {
                TouchpadGesture::TwoFingerPinchOut
            } else {
                TouchpadGesture::TwoFingerPinchIn
            }
        } else if outward {
            TouchpadGesture::FourFingerPinchOut
        } else {
            TouchpadGesture::FourFingerPinchIn
        }
    }

    /// Whether native scrolling owns the stroke.
    pub open spec fn scrolls(self) -> bool {
        &&& self.starts.len() == 2
        &&& self.centre_travel() > TAP_MAX_TRAVEL_UM
        &&& dominates_motion(self.centre_travel(), magnitude(self.spread_growth()))
    }

    /// Whether the stroke is a pinch.
    pub open spec fn pinches(self) -> bool {
        &&& self.starts.len() == 2 || self.starts.len() == 4
        &&& magnitude(self.spread_growth()) >= self.pinch_change()
        &&& dominates_motion(magnitude(self.spread_growth()), self.centre_travel())
    }

    /// What the stroke is recognized as so far.
    pub open spec fn recognition(self) -> GestureRecognition {
        if self.scrolls() {
            GestureRecognition::NativeScroll
        } else if self.pinches() {
            GestureRecognition::Gesture(self.pinch())
        } else if self.starts.len() >= 3 && self.swipes() {
            GestureRecognition::Gesture(self.swipe())
        } else {
            GestureRecognition::Pending
        }
    }

    /// Whether the stroke stayed short and still.
    pub open spec fn taps(self) -> bool {
        self.duration() <= TAP_MAX_DURATION_US && self.max_travel_um <= TAP_MAX_TRAVEL_UM
    }

    /// The tap this stroke would be.
    pub open spec fn tap(self) -> TouchpadGesture {
        if self.starts.len() == 2 {
            TouchpadGesture::TwoFingerTap
        } else if self.starts.len() == 3 {
            TouchpadGesture::ThreeFingerTap
        } else {
            TouchpadGesture::FourFingerTap
        }
    }

    /// The stroke that begins with `frame`.
    pub open spec fn begun(frame: FrameModel) -> StrokeModel {
        StrokeModel {
            starts: frame.contacts,
            latest: frame.contacts,
            started_at_us: frame.timestamp_us,
            last_at_us: frame.timestamp_us,
            max_travel_um: 0,
        }
    }

    /// The stroke after one more `frame` of the same fingers.
    pub open spec fn advanced(self, frame: FrameModel) -> StrokeModel {
        StrokeModel {
            starts: self.starts,
            latest: frame.contacts,
            started_at_us: self.started_at_us,
            last_at_us: frame.timestamp_us,
            max_travel_um: larger(
                self.max_travel_um as int,
                farthest(self.starts, frame.contacts) as int,
            ) as nat,
        }
    }
}

impl RecognizerModel {
    /// What one frame leads to, and what it is recognized as.
    pub open spec fn step(self, frame: FrameModel) -> (RecognizerModel, GestureRecognition) {
        if frame.contacts.len() == 0 {
            (RecognizerModel::Idle, GestureRecognition::Pending)
        } else if frame.contacts.len() == 1 || frame.contacts.len() > 4 {
            (RecognizerModel::Cancelled, GestureRecognition::Pending)
        } else {
            match self {
                RecognizerModel::Idle => (
                    RecognizerModel::Tracking(StrokeModel::begun(frame)),
                    GestureRecognition::Pending,
                ),
                RecognizerModel::Tracking(stroke) => {
                    if ids_of(frame.contacts) != ids_of(stroke.starts) {
                        (RecognizerModel::Cancelled, GestureRecognition::Pending)
                    } else {
                        let more = stroke.advanced(frame);
                        match more.recognition() {
                            GestureRecognition::Pending => (
                                RecognizerModel::Tracking(more),
                                GestureRecognition::Pending,
                            ),
                            GestureRecognition::Gesture(gesture) => (
                                RecognizerModel::Committed,
                                GestureRecognition::Gesture(gesture),
                            ),
                            GestureRecognition::NativeScroll => (
                                RecognizerModel::Cancelled,
                                GestureRecognition::NativeScroll,
                            ),
                        }
                    }
                },
                RecognizerModel::Committed => (self, GestureRecognition::Pending),
                RecognizerModel::Cancelled => (self, GestureRecognition::Pending),
            }
        }
    }

    /// The tap that ends the stroke, if it is one.
    pub open spec fn ending(self) -> Option<TouchpadGesture> {
        match self {
            RecognizerModel::Tracking(stroke) => if stroke.taps() {
                Some(stroke.tap())
            } else {
                None
            },
            _ => None,
        }
    }
}

/// Recognizer for one touchpad stream.
#[derive(Debug)]
pub struct TouchpadGestureRecognizer {
    state: StrokeState,
}

#[derive(Debug)]
enum StrokeState {
    Idle,
    Tracking(Stroke),
    Committed,
    Cancelled,
}

#[derive(Debug)]
struct Stroke {
    starts: Vec<TouchContact>,
    latest: Vec<TouchContact>,
    started_at_us: u64,
    last_at_us: u64,
    start_centroid: Point,
    start_spread_um: u64,
    max_contact_travel_um: u64,
}

impl Stroke {
    spec fn wf(&self) -> bool {
        &&& 2 <= self.starts@.len() <= 4
        &&& self.latest@.len() == self.starts@.len()
        &&& self.start_centroid.x == crate::geometry::centre_x(self.starts@)
        &&& self.start_centroid.y == crate::geometry::centre_y(self.starts@)
        &&& 0 <= self.start_centroid.x <= 0xffff_ffff
        &&& 0 <= self.start_centroid.y <= 0xffff_ffff
        &&& self.start_spread_um == crate::geometry::spread_of(self.starts@)
        &&& self.start_spread_um <= 0xffff_ffff
    }

    spec fn model(&self) -> StrokeModel {
        StrokeModel {
            starts: self.starts@,
            latest: self.latest@,
            started_at_us: self.started_at_us,
            last_at_us: self.last_at_us,
            max_travel_um: self.max_contact_travel_um as nat,
        }
    }

    fn new(frame: &TouchFrame) -> (stroke: Self)
        requires
            2 <= frame@.contacts.len() <= 4,
        ensures
            stroke.wf(),
            stroke.model() == StrokeModel::begun(frame@),
    {
        let start_centroid = centroid(&frame.contacts.list);
        let start_spread_um: u64 = spread(&frame.contacts.list, start_centroid);
        Stroke {
            starts: copied(&frame.contacts.list),
            latest: copied(&frame.contacts.list),
            started_at_us: frame.timestamp_us,
            last_at_us: frame.timestamp_us,
            start_centroid,
            start_spread_um,
            max_contact_travel_um: 0,
        }
    }

    fn accepts(&self, frame: &TouchFrame) -> (same: bool)
        requires
            self.wf(),
        ensures
            same == (ids_of(frame@.contacts) == ids_of(self.starts@)),
    {
        if frame.contacts.list.len() != self.starts.len() {
            assert(ids_of(frame@.contacts).len() != ids_of(self.starts@).len());
            return false;
        }
        let mut i: usize = 0;
        while i < self.starts.len()
            invariant
                i <= self.starts@.len(),
                frame@.contacts.len() == self.starts@.len(),
                frame@.contacts == frame.contacts.list@,
                forall|j: int| 0 <= j < i ==> frame@.contacts[j].id == #[trigger] self.starts@[j].id,
            decreases self.starts@.len() - i,
        {
            if frame.contacts.list[i].id != self.starts[i].id {
                assert(ids_of(frame@.contacts)[i as int] != ids_of(self.starts@)[i as int]);
                return false;
            }
            i += 1;
        }
        assert(ids_of(frame@.contacts) =~= ids_of(self.starts@));
        true
    }

    fn advance(&mut self, frame: &TouchFrame)
        requires
            old(self).wf(),
            frame@.contacts.len() == old(self).starts@.len(),
        ensures
            final(self).wf(),
            final(self).model() == old(self).model().advanced(frame@),
    {
        let travel: u64 = farthest_travel(&self.starts, &frame.contacts.list);
        self.last_at_us = frame.timestamp_us;
        self.latest = copied(&frame.contacts.list);
        if travel > self.max_contact_travel_um {
            self.max_contact_travel_um = travel;
        }
    }

    fn classify(&self) -> (recognition: GestureRecognition)
        requires
            self.wf(),
        ensures
            recognition == self.model().recognition(),
    {
        let ghost model = self.model();
        let centre = centroid(&self.latest);
        let dx: i64 = centre.x - self.start_centroid.x;
        let dy: i64 = centre.y - self.start_centroid.y;
        let spread_um: u64 = spread(&self.latest, centre);
        let centroid_distance: u64 = vector_length(dx, dy);
        let outward: bool = spread_um >= self.start_spread_um;
        let spread_change: u64 = if outward {
            spread_um - self.start_spread_um
        } else {
            self.start_spread_um - spread_um
        };
        assert(dx == model.dx() && dy == model.dy());
        assert(spread_change == magnitude(model.spread_growth()));
        let fingers: usize = self.starts.len();
        if fingers == 2 && centroid_distance > TAP_MAX_TRAVEL_UM && dominates(
            centroid_distance,
            spread_change,
        ) {
            return GestureRecognition::NativeScroll;
        }
        if (fingers == 2 || fingers == 4) && spread_change >= self.pinch_threshold() && dominates(
            spread_change,
            centroid_distance,
        ) {
            return GestureRecognition::Gesture(pinch_gesture(fingers, outward));
        }
        if fingers >= 3 && self.is_swipe(dx, dy) {
            return GestureRecognition::Gesture(swipe_gesture(fingers, dx, dy));
        }
        GestureRecognition::Pending
    }

    fn pinch_threshold(&self) -> (change: u64)
        requires
            self.wf(),
        ensures
            change == self.model().pinch_change(),
    {
        let share: u64 = self.start_spread_um * PINCH_MIN_SPREAD_PERCENT / 100;
        if share > PINCH_MIN_SPREAD_CHANGE_UM {
            share
        } else {
            PINCH_MIN_SPREAD_CHANGE_UM
        }
    }

    fn duration(&self) -> (duration: u64)
        ensures
            duration == self.model().duration(),
    {
        self.last_at_us.saturating_sub(self.started_at_us)
    }

    fn is_swipe(&self, dx: i64, dy: i64) -> (yes: bool)
        requires
            dx == self.model().dx(),
            dy == self.model().dy(),
            -0xffff_ffff <= dx <= 0xffff_ffff,
            -0xffff_ffff <= dy <= 0xffff_ffff,
        ensures
            yes == self.model().swipes(),
    {
        let abs_x: u64 = absolute(dx);
        let abs_y: u64 = absolute(dy);
        let horizontal: bool = abs_x > abs_y;
        let along: u64 = if horizontal { abs_x } else { abs_y };
        let across: u64 = if horizontal { abs_y } else { abs_x };
        let shortest: u64 = if horizontal {
            HORIZONTAL_SWIPE_MIN_DURATION_US
        } else {
            VERTICAL_SWIPE_MIN_DURATION_US
        };
        let share: u64 = along * 40 / 100;
        let cross_limit: u64 = if share > SWIPE_CROSS_AXIS_FLOOR_UM {
            share
        } else {
            SWIPE_CROSS_AXIS_FLOOR_UM
        };
        let duration: u64 = self.duration();
        let reach: u128 = along as u128 * 1_000_000;
        let pace: u128 = duration as u128 * 50_000;
        assert(pace == SWIPE_MIN_SPEED_UM_PER_SECOND * duration);
        along >= SWIPE_MIN_DISTANCE_UM && across <= cross_limit && duration >= shortest && reach
            >= pace
    }

    fn is_tap(&self) -> (yes: bool)
        ensures
            yes == self.model().taps(),
    {
        self.duration() <= TAP_MAX_DURATION_US && self.max_contact_travel_um <= TAP_MAX_TRAVEL_UM
    }

    fn tap_gesture(&self) -> (gesture: TouchpadGesture)
        requires
            self.wf(),
        ensures
            gesture == self.model().tap(),
    {
        match self.starts.len() {
            2 => TouchpadGesture::TwoFingerTap,
            3 => TouchpadGesture::ThreeFingerTap,
            _ => TouchpadGesture::FourFingerTap,
        }
    }
}

fn copied(contacts: &Vec<TouchContact>) -> (copy: Vec<TouchContact>)
    ensures
        copy@ == contacts@,
{
    let mut copy: Vec<TouchContact> = Vec::new();
    let mut i: usize = 0;
    while i < contacts.len()
        invariant
            i <= contacts@.len(),
            copy@ == contacts@.take(i as int),
        decreases contacts@.len() - i,
    {
        copy.push(contacts[i]);
        assert(copy@ =~= contacts@.take(i + 1));
        i += 1;
    }
    assert(contacts@.take(i as int) =~= contacts@);
    copy
}

fn absolute(value: i64) -> (r: u64)
    requires
        -0xffff_ffff <= value <= 0xffff_ffff,
    ensures
        r == magnitude(value as int),
        r <= 0xffff_ffff,
{
    if value < 0 {
        (-value) as u64
    } else {
        value as u64
    }
}

fn dominates(candidate: u64, other: u64) -> (yes: bool)
    requires
        candidate <= 0xffff_ffff,
        other <= 0xffff_ffff,
    ensures
        yes == dominates_motion(candidate as int, other as int),
{
    candidate * MOTION_DOMINANCE_DENOMINATOR > other * MOTION_DOMINANCE_NUMERATOR
}

fn pinch_gesture(fingers: usize, outward: bool) -> (gesture: TouchpadGesture)
    ensures
        forall|stroke: StrokeModel|
            stroke.starts.len() == fingers && outward == (stroke.spread_growth() >= 0) ==> gesture
                == #[trigger] stroke.pinch(),
{
    if fingers == 2 {
        if outward {
            TouchpadGesture::TwoFingerPinchOut
        } else {
            TouchpadGesture::TwoFingerPinchIn
        }
    } else if outward {
        TouchpadGesture::FourFingerPinchOut
    } else {
        TouchpadGesture::FourFingerPinchIn
    }
}

fn swipe_gesture(fingers: usize, dx: i64, dy: i64) -> (gesture: TouchpadGesture)
    requires
        -0xffff_ffff <= dx <= 0xffff_ffff,
        -0xffff_ffff <= dy <= 0xffff_ffff,
    ensures
        forall|stroke: StrokeModel|
            stroke.starts.len() == fingers && stroke.dx() == dx && stroke.dy() == dy ==> gesture
                == #[trigger] stroke.swipe(),
{
    let three: bool = fingers == 3;
    if absolute(dx) > absolute(dy) {
        if dx > 0 {
            if three {
                TouchpadGesture::ThreeFingerSwipeRight
            } else {
                TouchpadGesture::FourFingerSwipeRight
            }
        } else if three {
            TouchpadGesture::ThreeFingerSwipeLeft
        } else {
            TouchpadGesture::FourFingerSwipeLeft
        }
    } else if dy > 0 {
        if three {
            TouchpadGesture::ThreeFingerSwipeDown
        } else {
            TouchpadGesture::FourFingerSwipeDown
        }
    } else if three {
        TouchpadGesture::ThreeFingerSwipeUp
    } else {
        TouchpadGesture::FourFingerSwipeUp
    }
}

fn farthest_travel(starts: &Vec<TouchContact>, latest: &Vec<TouchContact>) -> (travel: u64)
    requires
        starts@.len() == latest@.len(),
    ensures
        travel == farthest(starts@, latest@),
{
    let mut travel: u64 = 0;
    let mut i: usize = 0;
    while i < starts.len()
        invariant
            i <= starts@.len(),
            starts@.len() == latest@.len(),
            travel == farthest(starts@.take(i as int), latest@.take(i as int)),
        decreases starts@.len() - i,
    {
        let one: u64 = contact_distance(starts[i], latest[i]);
        assert(starts@.take(i + 1).drop_last() =~= starts@.take(i as int));
        assert(latest@.take(i + 1).drop_last() =~= latest@.take(i as int));
        if one > travel {
            travel = one;
        }
        i += 1;
    }
    assert(starts@.take(i as int) =~= starts@);
    assert(latest@.take(i as int) =~= latest@);
    travel
}

impl View for TouchpadGestureRecognizer {
    type V = RecognizerModel;

    closed spec fn view(&self) -> RecognizerModel {
        match self.state {
            StrokeState::Idle => RecognizerModel::Idle,
            StrokeState::Tracking(stroke) => RecognizerModel::Tracking(stroke.model()),
            StrokeState::Committed => RecognizerModel::Committed,
            StrokeState::Cancelled => RecognizerModel::Cancelled,
        }
    }
}

impl Default for TouchpadGestureRecognizer {
    fn default() -> (recognizer: Self)
        ensures
            recognizer@ == RecognizerModel::Idle,
    {
        TouchpadGestureRecognizer { state: StrokeState::Idle }
    }
}

impl TouchpadGestureRecognizer {
    #[verifier::type_invariant]
    spec fn inv(&self) -> bool {
        match self.state {
            StrokeState::Tracking(stroke) => stroke.wf(),
            _ => true,
        }
    }

    /// Feed one complete frame. A gesture is returned at most once per stroke.
    pub fn update(&mut self, frame: &TouchFrame) -> (recognition: GestureRecognition)
        ensures
            (final(self)@, recognition) == old(self)@.step(frame@),
    {
        let count: usize = frame.contacts.list.len();
        if count == 0 {
            let _ = self.end();
            return GestureRecognition::Pending;
        }
        if count == 1 || count > 4 {
            self.state = StrokeState::Cancelled;
            return GestureRecognition::Pending;
        }
        proof {
            use_type_invariant(&*self);
        }
        let mut state = StrokeState::Idle;
        std::mem::swap(&mut state, &mut self.state);
        match state {
            StrokeState::Idle => {
                self.state = StrokeState::Tracking(Stroke::new(frame));
                GestureRecognition::Pending
            },
            StrokeState::Tracking(stroke) => {
                let mut stroke = stroke;
                if !stroke.accepts(frame) {
                    self.state = StrokeState::Cancelled;
                    return GestureRecognition::Pending;
                }
                assert(ids_of(frame@.contacts).len() == ids_of(stroke.starts@).len());
                stroke.advance(frame);
                let recognition = stroke.classify();
                self.state = match recognition {
                    GestureRecognition::Pending => StrokeState::Tracking(stroke),
                    GestureRecognition::Gesture(_) => StrokeState::Committed,
                    GestureRecognition::NativeScroll => StrokeState::Cancelled,
                };
                recognition
            },
            StrokeState::Committed => {
                self.state = StrokeState::Committed;
                GestureRecognition::Pending
            },
            StrokeState::Cancelled => {
                self.state = StrokeState::Cancelled;
                GestureRecognition::Pending
            },
        }
    }

    /// End the current stroke, returning a tap when it stayed short and still.
    pub fn end(&mut self) -> (tap: Option<TouchpadGesture>)
        ensures
            final(self)@ == RecognizerModel::Idle,
            tap == old(self)@.ending(),
    {
        proof {
            use_type_invariant(&*self);
        }
        let mut state = StrokeState::Idle;
        std::mem::swap(&mut state, &mut self.state);
        match state {
            StrokeState::Tracking(stroke) => {
                if stroke.is_tap() {
                    Some(stroke.tap_gesture())
                } else {
                    None
                }
            },
            _ => None,
        }
    }

    /// Cancel the current stroke without producing a tap.
    pub fn cancel(&mut self)
        ensures
            final(self)@ == RecognizerModel::Cancelled,
    {
        self.state = StrokeState::Cancelled;
    }
}

/// What a recognizer is told while a stroke lasts.
pub ghost enum StrokeEvent {
    /// A frame.
    Frame(FrameModel),
    /// The stroke is called off.
    Cancel,
}

impl StrokeEvent {
    /// Whether a finger stays down.
    pub open spec fn keeps_a_finger_down(self) -> bool {
        match self {
            StrokeEvent::Frame(frame) => frame.contacts.len() > 0,
            StrokeEvent::Cancel => true,
        }
    }
}

impl RecognizerModel {
    /// Where one event leads, and what comes of it. Nothing comes of a
    /// cancellation.
    pub open spec fn told(self, event: StrokeEvent) -> (RecognizerModel, GestureRecognition) {
        match event {
            StrokeEvent::Frame(frame) => self.step(frame),
            StrokeEvent::Cancel => (RecognizerModel::Cancelled, GestureRecognition::Pending),
        }
    }
}

/// What comes of `events` one after the other, and where that leads.
pub open spec fn run(state: RecognizerModel, events: Seq<StrokeEvent>) -> (
    RecognizerModel,
    Seq<GestureRecognition>,
)
    decreases events.len(),
{
    if events.len() == 0 {
        (state, Seq::empty())
    } else {
        let (before, results) = run(state, events.drop_last());
        let (after, result) = before.told(events.last());
        (after, results.push(result))
    }
}

/// Whether a recognizer can no longer fire before its fingers lift.
pub open spec fn settled(state: RecognizerModel) -> bool {
    state is Committed || state is Cancelled
}

/// While at least one finger stays down, at most one frame of a stroke is
/// recognized as anything, whatever cancellations come among the frames. After
/// that frame, and after a cancellation, the stroke stays silent, and its end is
/// not a tap.
pub proof fn law_a_stroke_is_recognized_at_most_once(
    state: RecognizerModel,
    events: Seq<StrokeEvent>,
)
    requires
        forall|i: int| 0 <= i < events.len() ==> (#[trigger] events[i]).keeps_a_finger_down(),
    ensures
        ({
            let (after, results) = run(state, events);
            &&& results.len() == events.len()
            &&& forall|i: int, j: int|
                0 <= i < j < results.len() ==> (#[trigger] results[i]) is Pending || (
                #[trigger] results[j]) is Pending
            &&& forall|i: int, j: int|
                0 <= i <= j < results.len() && (#[trigger] events[i]) is Cancel ==> (
                #[trigger] results[j]) is Pending
            &&& (exists|i: int| 0 <= i < results.len() && !((#[trigger] results[i]) is Pending))
                ==> settled(after) && after.ending() is None
            &&& (exists|i: int| 0 <= i < events.len() && (#[trigger] events[i]) is Cancel)
                ==> settled(after) && after.ending() is None
            &&& settled(state) ==> settled(after)
        }),
    decreases events.len(),
{
    if events.len() > 0 {
        let earlier = events.drop_last();
        law_a_stroke_is_recognized_at_most_once(state, earlier);
        let (before, results) = run(state, earlier);
        let (after, all) = run(state, events);
        assert(events[events.len() - 1].keeps_a_finger_down());
        assert(settled(before) ==> settled(after) && all.last() is Pending);
        if exists|i: int| 0 <= i < all.len() && !((#[trigger] all[i]) is Pending) {
            let i = choose|i: int| 0 <= i < all.len() && !((#[trigger] all[i]) is Pending);
            if i < results.len() {
                assert(!(results[i] is Pending));
            }
        }
        if exists|i: int| 0 <= i < events.len() && (#[trigger] events[i]) is Cancel {
            let i = choose|i: int| 0 <= i < events.len() && (#[trigger] events[i]) is Cancel;
            if i < earlier.len() {
                assert(earlier[i] is Cancel);
            }
        }
        assert forall|i: int, j: int| 0 <= i < j < all.len() implies (#[trigger] all[i]) is Pending
            || (#[trigger] all[j]) is Pending by {
            if j < results.len() {
                assert(all[i] == results[i] && all[j] == results[j]);
            } else {
                assert(all[i] == results[i]);
            }
        }
        assert forall|i: int, j: int|
            0 <= i <= j < all.len() && (#[trigger] events[i]) is Cancel implies (
        #[trigger] all[j]) is Pending by {
            if i < earlier.len() {
                assert(earlier[i] is Cancel);
                if j < results.len() {
                    assert(all[j] == results[j]);
                }
            }
        }
    }
}

/// After a cancellation every frame with a finger down is ignored, and the end
/// of the stroke produces nothing; the next stroke starts afresh.
pub proof fn law_a_cancelled_stroke_stays_silent(
    before: RecognizerModel,
    events: Seq<StrokeEvent>,
)
    requires
        forall|i: int| 0 <= i < events.len() ==> (#[trigger] events[i]).keeps_a_finger_down(),
    ensures
        ({
            let (after, results) = run(before.told(StrokeEvent::Cancel).0, events);
            &&& after is Cancelled
            &&& results.len() == events.len()
            &&& forall|i: int| 0 <= i < results.len() ==> (#[trigger] results[i]) is Pending
            &&& after.ending() is None
            &&& forall|lifted: FrameModel| #[trigger]
                lifted.contacts.len() == 0 ==> after.step(lifted) == (
                    RecognizerModel::Idle,
                    GestureRecognition::Pending,
                )
        }),
    decreases events.len(),
{
    if events.len() > 0 {
        law_a_cancelled_stroke_stays_silent(before, events.drop_last());
        assert(events[events.len() - 1].keeps_a_finger_down());
        let (_, results) = run(RecognizerModel::Cancelled, events.drop_last());
        let (_, all) = run(RecognizerModel::Cancelled, events);
        assert forall|i: int| 0 <= i < all.len() implies (#[trigger] all[i]) is Pending by {
            if i < results.len() {
                assert(all[i] == results[i]);
            }
        }
    }
}

/// A gesture is always one of the number of fingers the stroke began with.
pub proof fn law_a_gesture_keeps_the_finger_count(stroke: StrokeModel, frame: FrameModel)
    requires
        2 <= stroke.starts.len() <= 4,
    ensures
        ({
            let state = RecognizerModel::Tracking(stroke);
            &&& state.step(frame).1 matches GestureRecognition::Gesture(gesture)
                ==> gesture.fingers() == stroke.starts.len()
            &&& state.ending() matches Some(tap) ==> tap.fingers() == stroke.starts.len()
        }),
{
}

/// Every gesture has a trigger of its own, and the trigger is a touchpad one.
pub proof fn law_triggers_are_dedicated(a: TouchpadGesture, b: TouchpadGesture)
    ensures
        a.trigger_button().touchpad(),
        a.trigger_button() == b.trigger_button() ==> a == b,
{
}

/// Which way a swipe goes.
pub ghost enum Heading {
    Up,
    Down,
    Left,
    Right,
}

impl TouchpadGesture {
    /// Which way the gesture goes by its name, where it is a swipe.
    pub open spec fn heading(self) -> Option<Heading> {
        match self {
            TouchpadGesture::ThreeFingerSwipeUp => Some(Heading::Up),
            TouchpadGesture::FourFingerSwipeUp => Some(Heading::Up),
            TouchpadGesture::ThreeFingerSwipeDown => Some(Heading::Down),
            TouchpadGesture::FourFingerSwipeDown => Some(Heading::Down),
            TouchpadGesture::ThreeFingerSwipeLeft => Some(Heading::Left),
            TouchpadGesture::FourFingerSwipeLeft => Some(Heading::Left),
            TouchpadGesture::ThreeFingerSwipeRight => Some(Heading::Right),
            TouchpadGesture::FourFingerSwipeRight => Some(Heading::Right),
            _ => None,
        }
    }

    /// Whether the gesture is a pinch that draws the fingers apart.
    pub open spec fn pinches_out(self) -> bool {
        self is TwoFingerPinchOut || self is FourFingerPinchOut
    }

    /// Whether the gesture is a pinch that draws the fingers together.
    pub open spec fn pinches_in(self) -> bool {
        self is TwoFingerPinchIn || self is FourFingerPinchIn
    }

    /// Whether the gesture is a tap.
    pub open spec fn taps(self) -> bool {
        self is TwoFingerTap || self is ThreeFingerTap || self is FourFingerTap
    }

    /// What the gesture is called: how many fingers, and what they do.
    pub open spec fn called(self) -> Seq<char> {
        let fingers = if self.fingers() == 2 {
            "2-Finger "@
        } else if self.fingers() == 3 {
            "3-Finger "@
        } else {
            "4-Finger "@
        };
        let does = match self.heading() {
            Some(Heading::Up) => "Swipe Up"@,
            Some(Heading::Down) => "Swipe Down"@,
            Some(Heading::Left) => "Swipe Left"@,
            Some(Heading::Right) => "Swipe Right"@,
            None => if self.pinches_out() {
                "Pinch Out"@
            } else if self.pinches_in() {
                "Pinch In"@
            } else {
                "Tap"@
            },
        };
        fingers + does
    }
}

/// The trigger of a gesture bears the gesture's name.
pub proof fn law_a_trigger_bears_the_name_of_its_gesture(gesture: TouchpadGesture)
    ensures
        gesture.trigger_button().label_text() == gesture.called(),
        gesture.heading() is Some || gesture.pinches_out() || gesture.pinches_in()
            || gesture.taps(),
{
    reveal_strlit("2-Finger ");
    reveal_strlit("3-Finger ");
    reveal_strlit("4-Finger ");
    reveal_strlit("Swipe Up");
    reveal_strlit("Swipe Down");
    reveal_strlit("Swipe Left");
    reveal_strlit("Swipe Right");
    reveal_strlit("Pinch Out");
    reveal_strlit("Pinch In");
    reveal_strlit("Tap");
    reveal_strlit("2-Finger Tap");
    reveal_strlit("2-Finger Pinch In");
    reveal_strlit("2-Finger Pinch Out");
    reveal_strlit("3-Finger Tap");
    reveal_strlit("3-Finger Swipe Up");
    reveal_strlit("3-Finger Swipe Down");
    reveal_strlit("3-Finger Swipe Left");
    reveal_strlit("3-Finger Swipe Right");
    reveal_strlit("4-Finger Tap");
    reveal_strlit("4-Finger Swipe Up");
    reveal_strlit("4-Finger Swipe Down");
    reveal_strlit("4-Finger Swipe Left");
    reveal_strlit("4-Finger Swipe Right");
    reveal_strlit("4-Finger Pinch In");
    reveal_strlit("4-Finger Pinch Out");
    assert(gesture.trigger_button().label_text() =~= gesture.called());
}

/// A swipe goes where the centre of the fingers went: down where it went down at
/// least as far as to a side, up where it went up, and to a side where it went
/// farther that way. A pinch goes out where the fingers spread, and in where
/// they drew together. No stroke in progress is a tap.
pub proof fn law_a_gesture_goes_where_the_fingers_went(stroke: StrokeModel)
    ensures
        stroke.recognition() matches GestureRecognition::Gesture(gesture) ==> {
            &&& !gesture.taps()
            &&& gesture.heading() is Some ==> stroke.starts.len() >= 3
            &&& gesture.heading() == Some(Heading::Down) ==> stroke.dy() > 0 && stroke.dy()
                >= stroke.dx() && stroke.dy() >= -stroke.dx()
            &&& gesture.heading() == Some(Heading::Up) ==> stroke.dy() < 0 && -stroke.dy()
                >= stroke.dx() && -stroke.dy() >= -stroke.dx()
            &&& gesture.heading() == Some(Heading::Right) ==> stroke.dx() > 0 && stroke.dx()
                > stroke.dy() && stroke.dx() > -stroke.dy()
            &&& gesture.heading() == Some(Heading::Left) ==> stroke.dx() < 0 && -stroke.dx()
                > stroke.dy() && -stroke.dx() > -stroke.dy()
            &&& gesture.pinches_out() ==> crate::geometry::spread_of(stroke.latest)
                > crate::geometry::spread_of(stroke.starts)
            &&& gesture.pinches_in() ==> crate::geometry::spread_of(stroke.latest)
                < crate::geometry::spread_of(stroke.starts)
        },
{
}

/// How far something moved, whichever way.
pub open spec fn far(value: int) -> int {
    if value >= 0 {
        value
    } else {
        -value
    }
}

/// Whether a movement in some time is a swipe: ten millimetres or more along one
/// axis; across it no more than three millimetres or two fifths of that; in no
/// less than fifty milliseconds to a side or thirty-five up or down; and at five
/// centimetres a second or faster.
pub open spec fn quick_and_straight(right: int, down: int, us: int) -> bool {
    let sideways = far(right) > far(down);
    let along = if sideways { far(right) } else { far(down) };
    let across = if sideways { far(down) } else { far(right) };
    &&& along >= 10_000
    &&& across <= 3_000 || 5 * across <= 2 * along
    &&& us >= if sideways { 50_000int } else { 35_000 }
    &&& 20 * along >= us
}

/// Which way a movement goes.
pub open spec fn way(right: int, down: int) -> Heading {
    if far(right) > far(down) {
        if right > 0 {
            Heading::Right
        } else {
            Heading::Left
        }
    } else if down > 0 {
        Heading::Down
    } else {
        Heading::Up
    }
}

/// Three or four fingers that move together by the same are a swipe if and only
/// if the movement is quick and straight, and the swipe goes the way they went;
/// else the stroke goes on. Two fingers that move together scroll as soon as
/// they have moved three millimetres.
pub proof fn law_fingers_that_move_together_swipe_or_scroll(
    stroke: StrokeModel,
    right: int,
    down: int,
)
    requires
        2 <= stroke.starts.len() <= 4,
        crate::geometry::moved_by(stroke.starts, stroke.latest, right, down),
    ensures
        stroke.starts.len() >= 3 ==> {
            let swiped = quick_and_straight(
                right,
                down,
                stroke.last_at_us - stroke.started_at_us,
            );
            match stroke.recognition() {
                GestureRecognition::Gesture(gesture) => {
                    &&& swiped
                    &&& gesture.heading() == Some(way(right, down))
                    &&& gesture.fingers() == stroke.starts.len()
                },
                GestureRecognition::Pending => !swiped,
                GestureRecognition::NativeScroll => false,
            }
        },
        stroke.starts.len() == 2 ==> {
            let scrolled = crate::geometry::length(right, down) > 3_000;
            &&& stroke.recognition() is NativeScroll <==> scrolled
            &&& stroke.recognition() is Pending <==> !scrolled
        },
{
    crate::geometry::law_moving_all_fingers_moves_the_centre(
        stroke.starts,
        stroke.latest,
        right,
        down,
    );
    assert(stroke.dx() == right && stroke.dy() == down && stroke.spread_growth() == 0);
}

/// What a stroke is recognized as, by how far its centre moved, how much its
/// fingers spread, and how long it lasted. Two fingers scroll once the centre
/// moved more than three millimetres and more than one and a half times as far
/// as they spread. Two or four fingers pinch once they spread by eight
/// millimetres, and by eight parts in a hundred, and more than one and a half
/// times as far as the centre moved. Three or four fingers swipe once the centre
/// moved quickly and straight. Nothing else is anything.
pub proof fn law_when_a_stroke_is_recognized(stroke: StrokeModel)
    requires
        2 <= stroke.starts.len() <= 4,
    ensures
        ({
            let starts = stroke.starts;
            let spread = crate::geometry::spread_of(starts);
            let grown = far(crate::geometry::spread_of(stroke.latest) - spread);
            let right = crate::geometry::centre_x(stroke.latest) - crate::geometry::centre_x(starts);
            let down = crate::geometry::centre_y(stroke.latest) - crate::geometry::centre_y(starts);
            let moved = crate::geometry::length(right, down);
            let scrolls = starts.len() == 2 && moved > 3_000 && 2 * moved > 3 * grown;
            let pinches = starts.len() != 3 && grown >= 8_000 && 100 * (grown + 1) > 8 * spread
                && 2 * grown > 3 * moved;
            let swipes = starts.len() >= 3 && quick_and_straight(
                right,
                down,
                stroke.last_at_us - stroke.started_at_us,
            );
            match stroke.recognition() {
                GestureRecognition::NativeScroll => scrolls,
                GestureRecognition::Gesture(gesture) => {
                    &&& gesture.pinches_in() || gesture.pinches_out() <==> pinches
                    &&& gesture.heading() is Some <==> !pinches
                    &&& !pinches ==> swipes && gesture.heading() == Some(way(right, down))
                    &&& gesture.fingers() == starts.len()
                    &&& !scrolls
                },
                GestureRecognition::Pending => !scrolls && !pinches && !swipes,
            }
        }),
{
    crate::geometry::lemma_spread_is_no_less_than_zero(stroke.starts);
}

/// Whether every event is a frame of the same two to four fingers as the first.
pub open spec fn one_stroke(events: Seq<StrokeEvent>, starts: Seq<TouchContact>) -> bool {
    &&& 2 <= starts.len() <= 4
    &&& events.len() > 0
    &&& events[0] == StrokeEvent::Frame(FrameModel { contacts: starts, ..events[0]->Frame_0 })
    &&& forall|i: int|
        0 <= i < events.len() ==> (#[trigger] events[i] matches StrokeEvent::Frame(frame)
            && ids_of(frame.contacts) == ids_of(starts))
}

/// How far one finger of a frame is from where it started.
pub open spec fn finger_travel(
    events: Seq<StrokeEvent>,
    starts: Seq<TouchContact>,
    i: int,
    finger: int,
) -> int {
    crate::geometry::distance(starts[finger], events[i]->Frame_0.contacts[finger]) as int
}

proof fn lemma_farthest_bounds(starts: Seq<TouchContact>, latest: Seq<TouchContact>, limit: int)
    requires
        starts.len() == latest.len(),
        limit >= 0,
    ensures
        farthest(starts, latest) <= limit <==> forall|k: int|
            0 <= k < starts.len() ==> #[trigger] crate::geometry::distance(starts[k], latest[k])
                <= limit,
    decreases starts.len(),
{
    if starts.len() > 0 {
        let a = starts.drop_last();
        let b = latest.drop_last();
        lemma_farthest_bounds(a, b, limit);
        let last = starts.len() - 1;
        assert(starts.last() == starts[last] && latest.last() == latest[last]);
        if farthest(starts, latest) <= limit {
            assert forall|k: int| 0 <= k < starts.len() implies #[trigger] crate::geometry::distance(
                starts[k],
                latest[k],
            ) <= limit by {
                if k < last {
                    assert(a[k] == starts[k] && b[k] == latest[k]);
                    assert(crate::geometry::distance(a[k], b[k]) <= limit);
                }
            }
        }
        if forall|k: int|
            0 <= k < starts.len() ==> #[trigger] crate::geometry::distance(starts[k], latest[k])
                <= limit {
            assert(crate::geometry::distance(starts[last], latest[last]) <= limit);
            assert forall|k: int| 0 <= k < a.len() implies #[trigger] crate::geometry::distance(
                a[k],
                b[k],
            ) <= limit by {
                assert(a[k] == starts[k] && b[k] == latest[k]);
                assert(crate::geometry::distance(starts[k], latest[k]) <= limit);
            }
        }
    }
}

/// While a stroke is followed, it is made of frames of the same fingers, from
/// the first frame to the latest, and what it remembers is theirs: where and
/// when they started, where and when they are, and the farthest any of them has
/// been from its start.
pub proof fn law_a_followed_stroke_is_all_of_its_frames(
    events: Seq<StrokeEvent>,
    limit: int,
)
    requires
        events.len() > 0,
        forall|i: int| 0 <= i < events.len() ==> (#[trigger] events[i]).keeps_a_finger_down(),
        limit >= 0,
    ensures
        run(RecognizerModel::Idle, events).0 matches RecognizerModel::Tracking(stroke) ==> {
            &&& one_stroke(events, stroke.starts)
            &&& stroke.latest == events.last()->Frame_0.contacts
            &&& stroke.latest.len() == stroke.starts.len()
            &&& stroke.started_at_us == events[0]->Frame_0.timestamp_us
            &&& stroke.last_at_us == events.last()->Frame_0.timestamp_us
            &&& stroke.max_travel_um <= limit <==> forall|i: int, finger: int|
                0 < i < events.len() && 0 <= finger < stroke.starts.len() ==> #[trigger]
                finger_travel(events, stroke.starts, i, finger) <= limit
        },
    decreases events.len(),
{
    if run(RecognizerModel::Idle, events).0 is Tracking {
        let stroke = run(RecognizerModel::Idle, events).0->Tracking_0;
        let starts = stroke.starts;
        let last = events.len() - 1;
        assert(events.last() == events[last]);
        if last == 0 {
            assert(events.drop_last().len() == 0);
            assert(run(RecognizerModel::Idle, events.drop_last()).0 is Idle);
        } else {
            let fewer = events.drop_last();
            assert forall|i: int| 0 <= i < fewer.len() implies (
            #[trigger] fewer[i]).keeps_a_finger_down() by {
                assert(fewer[i] == events[i]);
            }
            law_a_followed_stroke_is_all_of_its_frames(fewer, limit);
            let before = run(RecognizerModel::Idle, fewer).0;
            assert(events[last].keeps_a_finger_down());
            lemma_never_idle_again(fewer);
            assert(before is Tracking);
            let earlier = before->Tracking_0;
            assert(earlier.starts == starts);
            let frame = events[last]->Frame_0;
            assert(ids_of(frame.contacts) == ids_of(starts));
            assert(ids_of(frame.contacts).len() == frame.contacts.len());
            assert(ids_of(starts).len() == starts.len());
            lemma_farthest_bounds(starts, frame.contacts, limit);
            assert(fewer[0] == events[0]);
            assert forall|i: int| 0 <= i < events.len() implies (
            #[trigger] events[i] matches StrokeEvent::Frame(one) && ids_of(one.contacts)
                == ids_of(starts)) by {
                if i < last {
                    assert(fewer[i] == events[i]);
                }
            }
            if stroke.max_travel_um <= limit {
                assert forall|i: int, finger: int|
                    0 < i < events.len() && 0 <= finger < starts.len() implies #[trigger]
                finger_travel(events, starts, i, finger) <= limit by {
                    if i < last {
                        assert(fewer[i] == events[i]);
                        assert(finger_travel(fewer, starts, i, finger) <= limit);
                    } else {
                        assert(crate::geometry::distance(starts[finger], frame.contacts[finger])
                            <= limit);
                    }
                }
            }
            if forall|i: int, finger: int|
                0 < i < events.len() && 0 <= finger < starts.len() ==> #[trigger] finger_travel(
                    events,
                    starts,
                    i,
                    finger,
                ) <= limit {
                assert forall|i: int, finger: int|
                    0 < i < fewer.len() && 0 <= finger < starts.len() implies #[trigger]
                finger_travel(fewer, starts, i, finger) <= limit by {
                    assert(fewer[i] == events[i]);
                    assert(finger_travel(events, starts, i, finger) <= limit);
                }
                assert forall|k: int| 0 <= k < starts.len() implies #[trigger]
                crate::geometry::distance(starts[k], frame.contacts[k]) <= limit by {
                    assert(finger_travel(events, starts, last, k) <= limit);
                }
            }
        }
    }
}

proof fn lemma_never_idle_again(events: Seq<StrokeEvent>)
    requires
        events.len() > 0,
        forall|i: int| 0 <= i < events.len() ==> (#[trigger] events[i]).keeps_a_finger_down(),
    ensures
        !(run(RecognizerModel::Idle, events).0 is Idle),
    decreases events.len(),
{
    let fewer = events.drop_last();
    assert(events[events.len() - 1].keeps_a_finger_down());
    assert(events.last() == events[events.len() - 1]);
    if fewer.len() > 0 {
        assert forall|i: int| 0 <= i < fewer.len() implies (
        #[trigger] fewer[i]).keeps_a_finger_down() by {
            assert(fewer[i] == events[i]);
        }
        lemma_never_idle_again(fewer);
    }
}

/// A stroke ends in a tap if and only if it was followed to its end, lasted a
/// quarter of a second at most, and no finger was ever farther than three
/// millimetres from where it started. The tap is one of as many fingers.
pub proof fn law_a_tap_is_short_and_still(events: Seq<StrokeEvent>)
    requires
        events.len() > 0,
        forall|i: int| 0 <= i < events.len() ==> (#[trigger] events[i]).keeps_a_finger_down(),
    ensures
        ({
            let after = run(RecognizerModel::Idle, events).0;
            let starts = events[0]->Frame_0.contacts;
            &&& after.ending() is Some <==> {
                &&& after is Tracking
                &&& events.last()->Frame_0.timestamp_us <= events[0]->Frame_0.timestamp_us
                    + 250_000
                &&& forall|i: int, finger: int|
                    0 < i < events.len() && 0 <= finger < starts.len() ==> #[trigger]
                    finger_travel(events, starts, i, finger) <= 3_000
            }
            &&& after.ending() matches Some(tap) ==> tap.taps() && tap.fingers() == starts.len()
        }),
{
    law_a_followed_stroke_is_all_of_its_frames(events, 3_000);
}

/// A stroke begins with two to four fingers; with one, or with more than four,
/// there is none until the fingers lift. A finger that is added, taken away or
/// replaced ends what the stroke could be; so does every finger that lifts. The
/// same fingers keep it.
pub proof fn law_a_stroke_keeps_its_fingers(
    stroke: StrokeModel,
    frame: FrameModel,
    state: RecognizerModel,
)
    ensures
        frame.contacts.len() == 0 ==> state.step(frame).0 is Idle,
        frame.contacts.len() == 1 || frame.contacts.len() > 4 ==> state.step(frame).0
            is Cancelled,
        2 <= frame.contacts.len() <= 4 ==> RecognizerModel::Idle.step(frame).0
            == RecognizerModel::Tracking(
            StrokeModel {
                starts: frame.contacts,
                latest: frame.contacts,
                started_at_us: frame.timestamp_us,
                last_at_us: frame.timestamp_us,
                max_travel_um: 0,
            },
        ),
        RecognizerModel::Idle.step(frame).1 is Pending,
        frame.contacts.len() > 0 && ids_of(frame.contacts) != ids_of(stroke.starts)
            ==> RecognizerModel::Tracking(stroke).step(frame) == (
            RecognizerModel::Cancelled,
            GestureRecognition::Pending,
        ),
        2 <= frame.contacts.len() <= 4 && ids_of(frame.contacts) == ids_of(stroke.starts) ==> {
            let (after, recognition) = RecognizerModel::Tracking(stroke).step(frame);
            &&& recognition == stroke.advanced(frame).recognition()
            &&& recognition is Pending <==> after is Tracking
            &&& recognition is Gesture <==> after is Committed
            &&& recognition is NativeScroll <==> after is Cancelled
            &&& stroke.advanced(frame).latest == frame.contacts
            &&& stroke.advanced(frame).starts == stroke.starts
            &&& stroke.advanced(frame).last_at_us == frame.timestamp_us
            &&& stroke.advanced(frame).started_at_us == stroke.started_at_us
        },
{
}

}
