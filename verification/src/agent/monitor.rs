//! A bounded record of touchpad events for diagnosis.
//!
//! Nothing is recorded until a client polls, and nothing once it stops polling.
//! The buffer does not grow beyond its capacity: the oldest events give way and
//! are counted.

use std::collections::VecDeque;

use vstd::prelude::*;
use vstd::string::StrSliceExecFns;

use crate::agent::input::{CapturedInput, InputModel};
use crate::ordered::{opt, OrderedMap, Replicate};
use crate::text::same_text;
use crate::touchpad::TouchContact;

verus! {

/// The most events that are kept.
pub const CAPACITY: usize = 2_048;

/// A touchpad event as a client sees it.
#[derive(Debug, PartialEq, Eq)]
pub enum TouchpadMonitorEvent {
    /// Fingers rest on or move over the touchpad.
    Frame { timestamp_us: u64, button: bool, contacts: Vec<TouchContact> },
    /// The last finger left the touchpad.
    End,
    /// The stroke came to nothing.
    Cancel,
    /// Frames were lost.
    DroppedFrames { count: u64 },
}

/// A touchpad event with the device it came from.
#[derive(Debug, PartialEq, Eq)]
pub struct TouchpadMonitorRecord {
    pub device_key: String,
    pub event: TouchpadMonitorEvent,
}

/// Another program changed the raw mode of a touchpad.
#[derive(Debug, PartialEq, Eq)]
pub struct TouchpadRawModeConflict {
    pub device_key: String,
    pub expected: u8,
    pub actual: u8,
}

/// What one poll gives.
#[derive(Debug, PartialEq, Eq)]
pub struct TouchpadMonitorBatch {
    /// The events since the last poll.
    pub events: Vec<TouchpadMonitorRecord>,
    /// How many events gave way since the last poll.
    pub dropped_events: u64,
    /// What is in the way of capture.
    pub conflicts: Vec<TouchpadRawModeConflict>,
}

/// The model of a [`TouchpadMonitorEvent`].
pub ghost enum EventModel {
    Frame { timestamp_us: u64, button: bool, contacts: Seq<TouchContact> },
    End,
    Cancel,
    DroppedFrames { count: u64 },
}

/// The model of a [`TouchpadMonitorRecord`].
pub ghost struct RecordModel {
    pub device_key: Seq<char>,
    pub event: EventModel,
}

/// The model of a [`TouchpadRawModeConflict`].
pub ghost struct ConflictModel {
    pub device_key: Seq<char>,
    pub expected: u8,
    pub actual: u8,
}

/// The model of a [`TouchpadMonitorBatch`].
pub ghost struct BatchModel {
    pub events: Seq<RecordModel>,
    pub dropped_events: int,
    pub conflicts: Seq<ConflictModel>,
}

impl View for TouchpadMonitorEvent {
    type V = EventModel;

    open spec fn view(&self) -> EventModel {
        match self {
            TouchpadMonitorEvent::Frame { timestamp_us, button, contacts } => EventModel::Frame {
                timestamp_us: *timestamp_us,
                button: *button,
                contacts: contacts@,
            },
            TouchpadMonitorEvent::End => EventModel::End,
            TouchpadMonitorEvent::Cancel => EventModel::Cancel,
            TouchpadMonitorEvent::DroppedFrames { count } => EventModel::DroppedFrames {
                count: *count,
            },
        }
    }
}

impl View for TouchpadMonitorRecord {
    type V = RecordModel;

    open spec fn view(&self) -> RecordModel {
        RecordModel { device_key: self.device_key@, event: self.event@ }
    }
}

impl View for TouchpadRawModeConflict {
    type V = ConflictModel;

    open spec fn view(&self) -> ConflictModel {
        ConflictModel {
            device_key: self.device_key@,
            expected: self.expected,
            actual: self.actual,
        }
    }
}

impl Replicate for TouchpadRawModeConflict {
    fn replicate(&self) -> (copy: Self) {
        TouchpadRawModeConflict {
            device_key: self.device_key.replicate(),
            expected: self.expected,
            actual: self.actual,
        }
    }
}

impl View for TouchpadMonitorBatch {
    type V = BatchModel;

    open spec fn view(&self) -> BatchModel {
        BatchModel {
            events: records(self.events@),
            dropped_events: self.dropped_events as int,
            conflicts: crate::ordered::each(self.conflicts@),
        }
    }
}

/// The models of a sequence of records.
pub open spec fn records(values: Seq<TouchpadMonitorRecord>) -> Seq<RecordModel> {
    crate::ordered::each(values)
}

/// A bounded record of touchpad events.
pub struct TouchpadMonitor {
    enabled: bool,
    polled: bool,
    requested_device: Option<String>,
    events: VecDeque<TouchpadMonitorRecord>,
    dropped_events: u64,
    conflicts: OrderedMap<String, TouchpadRawModeConflict>,
}

/// The model of a [`TouchpadMonitor`].
#[verifier::ext_equal]
pub ghost struct MonitorModel {
    /// Whether a client polls.
    pub enabled: bool,
    /// Whether a client polled since the last look.
    pub polled: bool,
    /// The device that the client asked for.
    pub requested_device: Option<Seq<char>>,
    /// What was recorded and not fetched.
    pub events: Seq<RecordModel>,
    /// How many events gave way and were not reported.
    pub dropped_events: int,
    /// What is in the way of capture, by device.
    pub conflicts: Map<Seq<char>, ConflictModel>,
}

/// What a client sees of a captured event, if anything.
pub open spec fn mirrored(input: InputModel) -> Option<EventModel> {
    match input {
        InputModel::TouchpadFrame(frame) => Some(
            EventModel::Frame {
                timestamp_us: frame.timestamp_us,
                button: frame.button,
                contacts: frame.contacts,
            },
        ),
        InputModel::TouchpadEnd => Some(EventModel::End),
        InputModel::TouchpadCancel => Some(EventModel::Cancel),
        InputModel::TouchpadDroppedFrames(count) => Some(EventModel::DroppedFrames { count }),
        _ => None,
    }
}

/// One more, up to the largest number that can be held.
pub open spec fn counted(count: int) -> int {
    if count < u64::MAX {
        count + 1
    } else {
        count
    }
}

/// The records of one device.
pub open spec fn of_device(device_key: Seq<char>) -> spec_fn(RecordModel) -> bool {
    |record: RecordModel| record.device_key == device_key
}

impl MonitorModel {
    /// A monitor that nobody polled.
    pub open spec fn idle() -> MonitorModel {
        MonitorModel {
            enabled: false,
            polled: false,
            requested_device: None,
            events: Seq::empty(),
            dropped_events: 0,
            conflicts: Map::empty(),
        }
    }

    /// Whether a client asks for a device's touchpad.
    pub open spec fn requests(self, device_key: Seq<char>) -> bool {
        self.enabled && self.requested_device == Some(device_key)
    }

    /// The monitor with one more event.
    pub open spec fn with_event(self, record: RecordModel) -> MonitorModel {
        if self.events.len() == CAPACITY {
            MonitorModel {
                events: self.events.drop_first().push(record),
                dropped_events: counted(self.dropped_events),
                ..self
            }
        } else {
            MonitorModel { events: self.events.push(record), ..self }
        }
    }

    /// The monitor once a captured event came in.
    pub open spec fn recorded(self, device_key: Seq<char>, input: InputModel) -> MonitorModel {
        match mirrored(input) {
            Some(event) => if self.requests(device_key) {
                self.with_event(RecordModel { device_key, event })
            } else {
                self
            },
            None => self,
        }
    }

    /// The monitor as a poll for a device finds it.
    pub open spec fn turned_to(self, device_key: Seq<char>) -> MonitorModel {
        if self.requested_device == Some(device_key) {
            self
        } else {
            MonitorModel {
                requested_device: Some(device_key),
                events: Seq::empty(),
                dropped_events: 0,
                ..self
            }
        }
    }

    /// What a poll for a device gives.
    pub open spec fn batch(self, device_key: Seq<char>) -> BatchModel {
        let found = self.turned_to(device_key);
        BatchModel {
            events: found.events.filter(of_device(device_key)),
            dropped_events: found.dropped_events,
            conflicts: if self.conflicts.contains_key(device_key) {
                seq![self.conflicts[device_key]]
            } else {
                Seq::empty()
            },
        }
    }

    /// The monitor once it was polled for a device.
    pub open spec fn after_poll(self, device_key: Seq<char>) -> MonitorModel {
        MonitorModel {
            enabled: true,
            polled: true,
            requested_device: Some(device_key),
            events: Seq::empty(),
            dropped_events: 0,
            conflicts: self.conflicts,
        }
    }

    /// The monitor once nobody polls any more.
    pub open spec fn switched_off(self) -> MonitorModel {
        MonitorModel {
            enabled: false,
            requested_device: None,
            events: Seq::empty(),
            dropped_events: 0,
            ..self
        }
    }

    /// The monitor once a look was taken at whether anybody polls.
    pub open spec fn looked_at(self) -> MonitorModel {
        if self.enabled && !self.polled {
            self.switched_off()
        } else if self.enabled {
            MonitorModel { polled: false, ..self }
        } else {
            self
        }
    }
}

impl View for TouchpadMonitor {
    type V = MonitorModel;

    closed spec fn view(&self) -> MonitorModel {
        MonitorModel {
            enabled: self.enabled,
            polled: self.polled,
            requested_device: opt(self.requested_device),
            events: records(self.events@),
            dropped_events: self.dropped_events as int,
            conflicts: self.conflicts@,
        }
    }
}

impl Default for TouchpadMonitor {
    fn default() -> (monitor: Self)
        ensures
            monitor@ == MonitorModel::idle(),
    {
        let monitor = TouchpadMonitor {
            enabled: false,
            polled: false,
            requested_device: None,
            events: VecDeque::new(),
            dropped_events: 0,
            conflicts: OrderedMap::new(),
        };
        assert(monitor@ =~= MonitorModel::idle());
        monitor
    }
}

fn contacts_of(frame: &crate::touchpad::TouchFrame) -> (contacts: Vec<TouchContact>)
    ensures
        contacts@ == frame@.contacts,
{
    let all = frame.contacts();
    let mut contacts: Vec<TouchContact> = Vec::new();
    let mut i: usize = 0;
    while i < all.len()
        invariant
            i <= all@.len(),
            contacts@ == all@.take(i as int),
        decreases all@.len() - i,
    {
        contacts.push(all[i]);
        i += 1;
        assert(contacts@ =~= all@.take(i as int));
    }
    assert(all@.take(i as int) =~= all@);
    contacts
}

impl TouchpadMonitor {
    #[verifier::type_invariant]
    spec fn inv(&self) -> bool {
        self.events@.len() <= CAPACITY
    }

    /// Whether a client asks for a device's touchpad.
    pub fn capture_requested_for(&self, device_key: &str) -> (yes: bool)
        ensures
            yes == self@.requests(device_key@),
    {
        self.enabled && self.turned_towards(device_key)
    }

    fn turned_towards(&self, device_key: &str) -> (yes: bool)
        ensures
            yes == (self@.requested_device == Some(device_key@)),
    {
        match &self.requested_device {
            Some(key) => same_text(key.as_str(), device_key),
            None => false,
        }
    }

    /// Record a captured event where a client asks for it.
    pub fn record(&mut self, device_key: &str, input: &CapturedInput)
        ensures
            final(self)@ == old(self)@.recorded(device_key@, input@),
            final(self)@.events.len() <= CAPACITY,
    {
        proof {
            use_type_invariant(&*self);
        }
        if !self.enabled {
            return;
        }
        let event = match input {
            CapturedInput::TouchpadFrame(frame) => TouchpadMonitorEvent::Frame {
                timestamp_us: frame.timestamp_us(),
                button: frame.button(),
                contacts: contacts_of(frame),
            },
            CapturedInput::TouchpadEnd => TouchpadMonitorEvent::End,
            CapturedInput::TouchpadCancel => TouchpadMonitorEvent::Cancel,
            CapturedInput::TouchpadDroppedFrames(count) => TouchpadMonitorEvent::DroppedFrames {
                count: *count,
            },
            _ => {
                return;
            },
        };
        if !self.turned_towards(device_key) {
            return;
        }
        let mut events: VecDeque<TouchpadMonitorRecord> = VecDeque::new();
        std::mem::swap(&mut events, &mut self.events);
        let ghost before = records(events@);
        let record = TouchpadMonitorRecord { device_key: device_key.to_owned(), event };
        let ghost model = record@;
        if events.len() == CAPACITY {
            let _ = events.pop_front();
            assert(records(events@) =~= before.drop_first());
            if self.dropped_events < u64::MAX {
                self.dropped_events = self.dropped_events + 1;
            }
        }
        let ghost kept = records(events@);
        events.push_back(record);
        assert(records(events@) =~= kept.push(model));
        self.events = events;
    }

    /// Note that another program changed a touchpad's raw mode.
    pub fn set_conflict(&mut self, device_key: &str, expected: u8, actual: u8)
        ensures
            final(self)@ == (MonitorModel {
                conflicts: old(self)@.conflicts.insert(
                    device_key@,
                    ConflictModel { device_key: device_key@, expected, actual },
                ),
                ..old(self)@
            }),
    {
        let conflict = TouchpadRawModeConflict {
            device_key: device_key.to_owned(),
            expected,
            actual,
        };
        let mut conflicts: OrderedMap<String, TouchpadRawModeConflict> = OrderedMap::new();
        proof {
            use_type_invariant(&*self);
        }
        std::mem::swap(&mut conflicts, &mut self.conflicts);
        let _ = conflicts.insert(device_key.to_owned(), conflict);
        self.conflicts = conflicts;
    }

    /// Note that nothing is in the way of a device's capture any more.
    pub fn clear_conflict(&mut self, device_key: &str)
        ensures
            final(self)@ == (MonitorModel {
                conflicts: old(self)@.conflicts.remove(device_key@),
                ..old(self)@
            }),
    {
        let mut conflicts: OrderedMap<String, TouchpadRawModeConflict> = OrderedMap::new();
        proof {
            use_type_invariant(&*self);
        }
        std::mem::swap(&mut conflicts, &mut self.conflicts);
        let _ = conflicts.remove(device_key);
        self.conflicts = conflicts;
    }

    /// Fetch what was recorded for a device since the last poll, and go on
    /// recording. What is in the way of capture is told without being forgotten.
    pub fn poll(&mut self, device_key: &str) -> (batch: TouchpadMonitorBatch)
        ensures
            batch@ == old(self)@.batch(device_key@),
            final(self)@ == old(self)@.after_poll(device_key@),
    {
        proof {
            use_type_invariant(&*self);
        }
        let ghost start = self@;
        self.polled = true;
        if !self.turned_towards(device_key) {
            self.requested_device = Some(device_key.to_owned());
            self.events = VecDeque::new();
            self.dropped_events = 0;
        }
        self.enabled = true;
        assert(records(self.events@) =~= start.turned_to(device_key@).events);
        let mut waiting: VecDeque<TouchpadMonitorRecord> = VecDeque::new();
        std::mem::swap(&mut waiting, &mut self.events);
        let ghost all = records(waiting@);
        let ghost pred = of_device(device_key@);
        let mut events: Vec<TouchpadMonitorRecord> = Vec::new();
        let ghost mut done: int = 0;
        proof {
            reveal(Seq::filter);
            assert(all.take(0).filter(pred) =~= Seq::<RecordModel>::empty());
            assert(records(events@) =~= all.take(0).filter(pred));
            assert(records(waiting@) =~= all.skip(0));
        }
        while waiting.len() > 0
            invariant
                0 <= done <= all.len(),
                pred == of_device(device_key@),
                records(waiting@) == all.skip(done),
                records(events@) == all.take(done).filter(pred),
            decreases waiting@.len(),
        {
            let ghost before = records(events@);
            let ghost left = records(waiting@);
            assert(left.len() == waiting@.len());
            let record = waiting.pop_front().unwrap();
            proof {
                assert(record@ == left[0]);
                assert(left[0] == all[done]);
                assert(records(waiting@) =~= left.drop_first());
                assert(all.skip(done).drop_first() =~= all.skip(done + 1));
                reveal(Seq::filter);
                assert(all.take(done + 1).drop_last() =~= all.take(done));
                assert(all.take(done + 1).last() == all[done]);
            }
            let ghost model = record@;
            if same_text(record.device_key.as_str(), device_key) {
                events.push(record);
                assert(records(events@) =~= before.push(model));
            }
            proof {
                done = done + 1;
            }
        }
        proof {
            assert(records(waiting@).len() == 0);
            assert(all.skip(done).len() == 0);
            assert(all.take(done) =~= all);
        }
        let dropped_events: u64 = self.dropped_events;
        self.dropped_events = 0;
        let mut conflicts: Vec<TouchpadRawModeConflict> = Vec::new();
        if let Some(conflict) = self.conflicts.get(device_key) {
            conflicts.push(conflict.replicate());
        }
        let batch = TouchpadMonitorBatch { events, dropped_events, conflicts };
        proof {
            assert(batch@.conflicts =~= start.batch(device_key@).conflicts);
            assert(self@.events =~= Seq::<RecordModel>::empty());
            assert(self@ =~= start.after_poll(device_key@));
        }
        batch
    }

    /// Stop recording.
    fn disable(&mut self)
        ensures
            final(self)@ == old(self)@.switched_off(),
    {
        proof {
            use_type_invariant(&*self);
        }
        self.enabled = false;
        self.requested_device = None;
        self.events = VecDeque::new();
        self.dropped_events = 0;
        assert(self@.events =~= Seq::<RecordModel>::empty());
    }

    /// Look whether anybody polled since the last look, and stop recording where
    /// nobody did.
    pub fn idle_tick(&mut self)
        ensures
            final(self)@ == old(self)@.looked_at(),
    {
        proof {
            use_type_invariant(&*self);
        }
        if !self.enabled {
            return;
        }
        let polled: bool = self.polled;
        self.polled = false;
        if !polled {
            self.disable();
        }
    }
}

/// Nothing is recorded before the first poll, nor for another device than the
/// one polled for.
pub proof fn law_only_what_is_polled_for_is_recorded(
    monitor: MonitorModel,
    device_key: Seq<char>,
    input: InputModel,
)
    requires
        !monitor.requests(device_key),
    ensures
        monitor.recorded(device_key, input) == monitor,
        MonitorModel::idle().recorded(device_key, input) == MonitorModel::idle(),
{
}

/// What can happen to a monitor between two polls.
pub ghost enum Happening {
    /// A captured event of a device came in.
    Recorded { device_key: Seq<char>, input: InputModel },
    /// Another program was found to have changed a touchpad's raw mode.
    ConflictSet { device_key: Seq<char>, expected: u8, actual: u8 },
    /// Nothing is in the way of a device's capture any more.
    ConflictCleared { device_key: Seq<char> },
    /// A look was taken at whether anybody polls.
    LookedAt,
}

impl MonitorModel {
    /// The monitor once one thing happened.
    pub open spec fn after_one(self, happening: Happening) -> MonitorModel {
        match happening {
            Happening::Recorded { device_key, input } => self.recorded(device_key, input),
            Happening::ConflictSet { device_key, expected, actual } => MonitorModel {
                conflicts: self.conflicts.insert(
                    device_key,
                    ConflictModel { device_key, expected, actual },
                ),
                ..self
            },
            Happening::ConflictCleared { device_key } => MonitorModel {
                conflicts: self.conflicts.remove(device_key),
                ..self
            },
            Happening::LookedAt => self.looked_at(),
        }
    }

    /// The monitor once several things happened, one after the other.
    pub open spec fn after_all(self, happenings: Seq<Happening>) -> MonitorModel
        decreases happenings.len(),
    {
        if happenings.len() == 0 {
            self
        } else {
            self.after_all(happenings.drop_last()).after_one(happenings.last())
        }
    }
}

/// The touchpad events of one device among what happened, in order.
pub open spec fn touchpad_events(device_key: Seq<char>, happenings: Seq<Happening>) -> Seq<
    RecordModel,
>
    decreases happenings.len(),
{
    if happenings.len() == 0 {
        Seq::empty()
    } else {
        let earlier = touchpad_events(device_key, happenings.drop_last());
        match happenings.last() {
            Happening::Recorded { device_key: key, input } => match mirrored(input) {
                Some(event) if key == device_key => earlier.push(RecordModel { device_key, event }),
                _ => earlier,
            },
            _ => earlier,
        }
    }
}

/// The last `n` of a sequence, or all of it where there are fewer.
pub open spec fn last_of<A>(values: Seq<A>, n: int) -> Seq<A> {
    if values.len() <= n {
        values
    } else {
        values.skip(values.len() - n)
    }
}

/// How many of a sequence are not among its last `n`.
pub open spec fn beyond<A>(values: Seq<A>, n: int) -> int {
    if values.len() <= n {
        0
    } else {
        values.len() - n
    }
}

/// The smaller of two numbers.
pub open spec fn at_most(count: int, limit: int) -> int {
    if count <= limit {
        count
    } else {
        limit
    }
}

proof fn lemma_between_two_polls(
    monitor: MonitorModel,
    device_key: Seq<char>,
    happenings: Seq<Happening>,
)
    requires
        monitor.after_poll(device_key).after_all(happenings).enabled,
    ensures
        ({
            let after = monitor.after_poll(device_key).after_all(happenings);
            let events = touchpad_events(device_key, happenings);
            &&& after.requested_device == Some(device_key)
            &&& after.events == last_of(events, CAPACITY as int)
            &&& after.dropped_events == at_most(beyond(events, CAPACITY as int), u64::MAX as int)
            &&& forall|i: int|
                0 <= i < events.len() ==> (#[trigger] events[i]).device_key == device_key
        }),
    decreases happenings.len(),
{
    if happenings.len() > 0 {
        let fewer = happenings.drop_last();
        let before = monitor.after_poll(device_key).after_all(fewer);
        let after = monitor.after_poll(device_key).after_all(happenings);
        assert(before.enabled);
        lemma_between_two_polls(monitor, device_key, fewer);
        let earlier = touchpad_events(device_key, fewer);
        let events = touchpad_events(device_key, happenings);
        assert(after.events =~= last_of(events, CAPACITY as int));
    }
}

/// A poll gives what the device's touchpad did since the last poll for it: the
/// last events in order, as many as fit, each with the device's key. The others
/// are counted. It tells what is in the way of the device's capture now, and
/// goes on telling it; a second poll right after gives no events and counts
/// none. Whatever else came in meanwhile makes no difference, as long as the
/// monitor was not switched off.
pub proof fn law_a_poll_gives_what_was_recorded(
    monitor: MonitorModel,
    device_key: Seq<char>,
    happenings: Seq<Happening>,
)
    requires
        monitor.after_poll(device_key).after_all(happenings).enabled,
    ensures
        ({
            let after = monitor.after_poll(device_key).after_all(happenings);
            let events = touchpad_events(device_key, happenings);
            let batch = after.batch(device_key);
            let again = after.after_poll(device_key).batch(device_key);
            &&& batch.events == last_of(events, CAPACITY as int)
            &&& forall|i: int|
                0 <= i < batch.events.len() ==> (#[trigger] batch.events[i]).device_key
                    == device_key
            &&& batch.dropped_events == at_most(beyond(events, CAPACITY as int), u64::MAX as int)
            &&& batch.conflicts == if after.conflicts.contains_key(device_key) {
                seq![after.conflicts[device_key]]
            } else {
                Seq::empty()
            }
            &&& again == (BatchModel {
                events: Seq::empty(),
                dropped_events: 0,
                conflicts: batch.conflicts,
            })
        }),
{
    lemma_between_two_polls(monitor, device_key, happenings);
    let after = monitor.after_poll(device_key).after_all(happenings);
    lemma_filter_of_all(after.events, of_device(device_key));
    lemma_filter_of_all(Seq::<RecordModel>::empty(), of_device(device_key));
}

proof fn lemma_filter_of_all<A>(s: Seq<A>, pred: spec_fn(A) -> bool)
    requires
        forall|i: int| 0 <= i < s.len() ==> pred(#[trigger] s[i]),
    ensures
        s.filter(pred) == s,
    decreases s.len(),
{
    reveal(Seq::filter);
    if s.len() > 0 {
        lemma_filter_of_all(s.drop_last(), pred);
        assert(s.drop_last().push(s.last()) =~= s);
    }
}

/// A conflict stays, whatever is polled or recorded and whoever stops polling,
/// until it is cleared.
pub proof fn law_conflicts_survive_until_cleared(
    monitor: MonitorModel,
    device_key: Seq<char>,
    other: Seq<char>,
    input: InputModel,
)
    ensures
        monitor.after_poll(device_key).conflicts == monitor.conflicts,
        monitor.recorded(device_key, input).conflicts == monitor.conflicts,
        monitor.looked_at().conflicts == monitor.conflicts,
        monitor.switched_off().conflicts == monitor.conflicts,
        monitor.conflicts.contains_key(other) ==> monitor.batch(other).conflicts
            == seq![monitor.conflicts[other]],
{
}

/// A client that stops polling is noticed at the second look, and the buffer is
/// empty then.
pub proof fn law_an_idle_monitor_switches_itself_off(
    monitor: MonitorModel,
    device_key: Seq<char>,
)
    ensures
        monitor.after_poll(device_key).looked_at().enabled,
        !monitor.after_poll(device_key).looked_at().looked_at().enabled,
        monitor.after_poll(device_key).looked_at().looked_at().events.len() == 0,
{
}

/// A client sees what the touchpad did and nothing else: each frame with its
/// time, its button and its fingers, how many frames were lost, and whether a
/// stroke ended or was called off.
pub proof fn law_what_a_client_sees(input: InputModel)
    ensures
        match (input, mirrored(input)) {
            (
                InputModel::TouchpadFrame(frame),
                Some(EventModel::Frame { timestamp_us, button, contacts }),
            ) => timestamp_us == frame.timestamp_us && button == frame.button && contacts
                == frame.contacts,
            (InputModel::TouchpadDroppedFrames(lost), Some(EventModel::DroppedFrames { count })) =>
                lost == count,
            (InputModel::TouchpadEnd, Some(EventModel::End)) => true,
            (InputModel::TouchpadCancel, Some(EventModel::Cancel)) => true,
            (_, shown) => shown is None && !(input is TouchpadFrame) && !(input is TouchpadEnd)
                && !(input is TouchpadCancel) && !(input is TouchpadDroppedFrames),
        },
{
}

/// A poll for another device than the last starts afresh for it, with nothing of
/// the device before; a poll for the same device keeps what was recorded. A
/// monitor that is switched off records nothing and holds nothing but what is in
/// the way of capture.
pub proof fn law_a_monitor_is_for_one_device(
    monitor: MonitorModel,
    device_key: Seq<char>,
    other: Seq<char>,
)
    ensures
        ({
            let turned = monitor.turned_to(device_key);
            &&& turned.requested_device == Some(device_key)
            &&& monitor.requested_device == Some(device_key) ==> turned.events == monitor.events
                && turned.dropped_events == monitor.dropped_events
            &&& monitor.requested_device != Some(device_key) ==> turned.events.len() == 0
                && turned.dropped_events == 0
            &&& turned.conflicts == monitor.conflicts
        }),
        ({
            let off = monitor.switched_off();
            &&& !off.requests(other)
            &&& off.events.len() == 0 && off.dropped_events == 0
            &&& off.requested_device is None
            &&& off.conflicts == monitor.conflicts
        }),
{
}

}
