//! Tracing a touchpad.
//!
//! The trace names one touchpad, counts what it sees, and reports each conflict
//! once.

use vstd::prelude::*;
use vstd::string::{StrSliceExecFns, StringExecFns};

use crate::agent::monitor::{
    ConflictModel, EventModel, RecordModel, TouchpadMonitorBatch, TouchpadMonitorEvent,
    TouchpadRawModeConflict,
};
use crate::agent::startup::{identity_of, is_online_touchpad, journal_identity, online_touchpad};
use crate::config::{Config, ConfigModel};
use crate::device::{DeviceInventory, DeviceRoute, PairedDevice};
use crate::device_order::{DeviceStableId, StableModel};
use crate::ordered::{
    each, is_key_order, key_order, lemma_key_order_is_unique, opt, OrderedMap, Replicate, Same,
};
use crate::text::{
    decimal, hexadecimal, joined_with, push_decimal, push_hexadecimal, same_text, separated,
};

verus! {

/// The shortest trace, in seconds.
pub const SHORTEST_TRACE: u64 = 1;

/// The longest trace, in seconds.
pub const LONGEST_TRACE: u64 = 300;

/// How long a trace lasts where nothing is said, in seconds.
pub const DEFAULT_TRACE: u64 = 10;

/// What a trace was asked for.
#[derive(Debug, PartialEq, Eq)]
pub struct TouchpadArgs {
    /// How long it lasts, in seconds.
    pub seconds: u64,
    /// What the touchpad's name or key has in it.
    pub device: Option<String>,
}

/// A trace that is too short or too long.
#[derive(Clone, Copy, Debug, PartialEq, Eq, Structural)]
pub struct TraceLengthError {
    pub seconds: u64,
}

impl TouchpadArgs {
    /// A trace of so many seconds.
    pub fn new(seconds: Option<u64>, device: Option<String>) -> (result: Result<
        TouchpadArgs,
        TraceLengthError,
    >)
        ensures
            ({
                let length = match seconds {
                    Some(seconds) => seconds,
                    None => DEFAULT_TRACE,
                };
                match result {
                    Ok(args) => SHORTEST_TRACE <= length <= LONGEST_TRACE && args.seconds == length
                        && args.device == device,
                    Err(error) => (length < SHORTEST_TRACE || length > LONGEST_TRACE)
                        && error.seconds == length,
                }
            }),
    {
        let length: u64 = match seconds {
            Some(seconds) => seconds,
            None => DEFAULT_TRACE,
        };
        if length < SHORTEST_TRACE || length > LONGEST_TRACE {
            Err(TraceLengthError { seconds: length })
        } else {
            Ok(TouchpadArgs { seconds: length, device })
        }
    }
}

/// What is said where the agent speaks another protocol.
pub open spec fn protocol_text(version: u32, expected: u32) -> Seq<char> {
    "the agent speaks protocol v"@ + decimal(version as nat) + ", but this CLI expects v"@
        + decimal(expected as nat)
}

/// Whether the agent speaks the protocol that is expected; if not, what is said.
pub fn check_protocol(version: u32, expected: u32) -> (result: Result<(), String>)
    ensures
        match result {
            Ok(_) => version == expected,
            Err(message) => version != expected && message@ == protocol_text(version, expected),
        },
{
    if version == expected {
        return Ok(());
    }
    let mut message = "the agent speaks protocol v".to_owned();
    push_decimal(&mut message, version as u64);
    message.append(", but this CLI expects v");
    push_decimal(&mut message, expected as u64);
    Err(message)
}

/// What is said when a trace begins.
pub open spec fn capturing_text(seconds: u64, device_key: Seq<char>) -> Seq<char> {
    "capturing Agent-owned touchpad and native-event traces for "@ + decimal(seconds as nat)
        + " s ("@ + device_key + ")"@
}

/// What is said when a trace begins.
pub fn capturing_line(seconds: u64, device_key: &str) -> (line: String)
    ensures
        line@ == capturing_text(seconds, device_key@),
{
    let mut line = "capturing Agent-owned touchpad and native-event traces for ".to_owned();
    push_decimal(&mut line, seconds);
    line.append(" s (");
    line.append(device_key);
    line.append(")");
    line
}

/// What a trace has seen.
#[derive(Clone, Copy, Debug, PartialEq, Eq, Structural)]
pub struct Summary {
    pub frames: u64,
    pub ends: u64,
    pub cancels: u64,
    pub logical_frame_drops: u64,
    pub buffer_drops: u64,
    pub native_events: u64,
}

/// A sum, up to the largest number that can be held.
pub open spec fn capped_sum(a: u64, b: u64) -> u64 {
    if a + b > u64::MAX {
        u64::MAX
    } else {
        (a + b) as u64
    }
}

fn add_capped(a: u64, b: u64) -> (sum: u64)
    ensures
        sum == capped_sum(a, b),
{
    if a > u64::MAX - b {
        u64::MAX
    } else {
        a + b
    }
}

impl Summary {
    /// Nothing seen.
    pub open spec fn blank() -> Summary {
        Summary {
            frames: 0,
            ends: 0,
            cancels: 0,
            logical_frame_drops: 0,
            buffer_drops: 0,
            native_events: 0,
        }
    }

    /// Whether `n` more events can be counted.
    pub open spec fn room_for(self, n: nat) -> bool {
        self.frames + n <= u64::MAX && self.ends + n <= u64::MAX && self.cancels + n <= u64::MAX
    }

    /// With one more event seen.
    pub open spec fn with_event(self, event: EventModel) -> Summary {
        match event {
            EventModel::Frame { .. } => Summary { frames: (self.frames + 1) as u64, ..self },
            EventModel::End => Summary { ends: (self.ends + 1) as u64, ..self },
            EventModel::Cancel => Summary { cancels: (self.cancels + 1) as u64, ..self },
            EventModel::DroppedFrames { count } => Summary {
                logical_frame_drops: capped_sum(self.logical_frame_drops, count),
                ..self
            },
        }
    }

    /// With several more events seen.
    pub open spec fn with_events(self, records: Seq<RecordModel>) -> Summary
        decreases records.len(),
    {
        if records.len() == 0 {
            self
        } else {
            self.with_events(records.drop_last()).with_event(records.last().event)
        }
    }

    /// Count one event.
    pub fn observe_touchpad(&mut self, event: &TouchpadMonitorEvent)
        requires
            old(self).room_for(1),
        ensures
            *final(self) == old(self).with_event(event@),
    {
        match event {
            TouchpadMonitorEvent::Frame { timestamp_us: _, button: _, contacts: _ } => {
                self.frames = self.frames + 1;
            },
            TouchpadMonitorEvent::End => {
                self.ends = self.ends + 1;
            },
            TouchpadMonitorEvent::Cancel => {
                self.cancels = self.cancels + 1;
            },
            TouchpadMonitorEvent::DroppedFrames { count } => {
                self.logical_frame_drops = add_capped(self.logical_frame_drops, *count);
            },
        }
    }

    /// Count events that the system itself saw.
    pub fn observe_native(&mut self, count: u64)
        ensures
            *final(self) == (Summary {
                native_events: capped_sum(old(self).native_events, count),
                ..*old(self)
            }),
    {
        self.native_events = add_capped(self.native_events, count);
    }
}

impl Default for Summary {
    fn default() -> (summary: Self)
        ensures
            summary == Summary::blank(),
    {
        Summary {
            frames: 0,
            ends: 0,
            cancels: 0,
            logical_frame_drops: 0,
            buffer_drops: 0,
            native_events: 0,
        }
    }
}

/// A trace so far.
#[derive(Debug, PartialEq, Eq)]
pub struct Trace {
    pub summary: Summary,
    /// The conflicts that were reported.
    pub conflicts: Vec<TouchpadRawModeConflict>,
}

/// Those of `conflicts` that are not in `seen` and not twice among themselves.
pub open spec fn unseen(seen: Seq<ConflictModel>, conflicts: Seq<ConflictModel>) -> Seq<
    ConflictModel,
>
    decreases conflicts.len(),
{
    if conflicts.len() == 0 {
        Seq::empty()
    } else {
        let before = unseen(seen, conflicts.drop_last());
        if seen.contains(conflicts.last()) || before.contains(conflicts.last()) {
            before
        } else {
            before.push(conflicts.last())
        }
    }
}

fn same_conflict(a: &TouchpadRawModeConflict, b: &TouchpadRawModeConflict) -> (same: bool)
    ensures
        same == (a@ == b@),
{
    a.expected == b.expected && a.actual == b.actual && a.device_key.same(&b.device_key)
}

fn among(conflicts: &Vec<TouchpadRawModeConflict>, conflict: &TouchpadRawModeConflict) -> (yes:
    bool)
    ensures
        yes == each(conflicts@).contains(conflict@),
{
    let mut i: usize = 0;
    while i < conflicts.len()
        invariant
            i <= conflicts@.len(),
            forall|j: int| 0 <= j < i ==> each(conflicts@)[j] != conflict@,
        decreases conflicts@.len() - i,
    {
        if same_conflict(&conflicts[i], conflict) {
            assert(each(conflicts@)[i as int] == conflict@);
            return true;
        }
        i += 1;
    }
    false
}

impl Default for Trace {
    fn default() -> (trace: Self)
        ensures
            trace.summary == Summary::blank(),
            trace.conflicts@.len() == 0,
    {
        Trace { summary: Summary::default(), conflicts: Vec::new() }
    }
}

impl Trace {
    /// Count what a poll gave, and give the conflicts that are to be reported.
    pub fn consume_batch(&mut self, batch: &TouchpadMonitorBatch) -> (report: Vec<
        TouchpadRawModeConflict,
    >)
        requires
            old(self).summary.room_for(batch.events@.len()),
        ensures
            final(self).summary == (Summary {
                buffer_drops: capped_sum(old(self).summary.buffer_drops, batch.dropped_events),
                ..old(self).summary.with_events(batch@.events)
            }),
            each(report@) == unseen(each(old(self).conflicts@), batch@.conflicts),
            each(final(self).conflicts@) == each(old(self).conflicts@) + each(report@),
    {
        let ghost start = self.summary;
        let ghost seen = each(self.conflicts@);
        let ghost events = batch@.events;
        let mut i: usize = 0;
        assert(events.take(0) =~= Seq::<RecordModel>::empty());
        while i < batch.events.len()
            invariant
                events == batch@.events,
                events.len() == batch.events@.len(),
                i <= events.len(),
                start.room_for(events.len()),
                each(self.conflicts@) == seen,
                self.summary == start.with_events(events.take(i as int)),
                self.summary.frames <= start.frames + i,
                self.summary.ends <= start.ends + i,
                self.summary.cancels <= start.cancels + i,
            decreases events.len() - i,
        {
            proof {
                assert(events.take(i + 1).drop_last() =~= events.take(i as int));
                assert(events.take(i + 1).last() == batch.events@[i as int]@);
            }
            self.summary.observe_touchpad(&batch.events[i].event);
            i += 1;
        }
        assert(events.take(i as int) =~= events);
        proof {
            lemma_drops_are_untouched(start, events);
        }
        self.summary.buffer_drops = add_capped(self.summary.buffer_drops, batch.dropped_events);
        let mut report: Vec<TouchpadRawModeConflict> = Vec::new();
        let ghost conflicts = batch@.conflicts;
        let ghost counted = self.summary;
        let mut i: usize = 0;
        proof {
            assert(conflicts.take(0) =~= Seq::<ConflictModel>::empty());
            assert(each(report@) =~= Seq::<ConflictModel>::empty());
            assert(each(self.conflicts@) =~= seen + each(report@));
        }
        while i < batch.conflicts.len()
            invariant
                conflicts == each(batch.conflicts@),
                i <= conflicts.len(),
                self.summary == counted,
                each(report@) == unseen(seen, conflicts.take(i as int)),
                each(self.conflicts@) == seen + each(report@),
            decreases conflicts.len() - i,
        {
            let conflict = &batch.conflicts[i];
            let ghost before = each(report@);
            proof {
                assert(conflicts.take(i + 1).drop_last() =~= conflicts.take(i as int));
                assert(conflicts.take(i + 1).last() == conflict@);
                lemma_contains_either(seen, before, conflict@);
            }
            if !among(&self.conflicts, conflict) {
                let ghost all = each(self.conflicts@);
                self.conflicts.push(conflict.replicate());
                report.push(conflict.replicate());
                proof {
                    assert(each(report@) =~= before.push(conflict@));
                    assert(each(self.conflicts@) =~= all.push(conflict@));
                    assert(each(self.conflicts@) =~= seen + each(report@));
                }
            }
            i += 1;
        }
        assert(conflicts.take(i as int) =~= conflicts);
        report
    }

    /// What is said at the end of a trace.
    pub open spec fn summary_text(self) -> Seq<char> {
        "summary: "@ + decimal(self.summary.frames as nat) + " frames, "@ + decimal(
            self.summary.ends as nat,
        ) + " ends, "@ + decimal(self.summary.cancels as nat) + " cancels, "@ + decimal(
            self.summary.logical_frame_drops as nat,
        ) + " logical-frame drops, "@ + decimal(self.summary.buffer_drops as nat)
            + " buffer drops, "@ + decimal(self.summary.native_events as nat)
            + " native events, "@ + decimal(self.conflicts@.len()) + " raw-mode conflicts"@
    }

    /// What is said at the end of a trace.
    pub fn summary_line(&self) -> (line: String)
        ensures
            line@ == self.summary_text(),
    {
        let mut line = "summary: ".to_owned();
        push_decimal(&mut line, self.summary.frames);
        line.append(" frames, ");
        push_decimal(&mut line, self.summary.ends);
        line.append(" ends, ");
        push_decimal(&mut line, self.summary.cancels);
        line.append(" cancels, ");
        push_decimal(&mut line, self.summary.logical_frame_drops);
        line.append(" logical-frame drops, ");
        push_decimal(&mut line, self.summary.buffer_drops);
        line.append(" buffer drops, ");
        push_decimal(&mut line, self.summary.native_events);
        line.append(" native events, ");
        push_decimal(&mut line, self.conflicts.len() as u64);
        line.append(" raw-mode conflicts");
        line
    }

    /// Whether the trace saw nothing, and nothing says why.
    pub fn saw_nothing(&self) -> (yes: bool)
        ensures
            yes == (self.summary.frames == 0 && self.conflicts@.len() == 0),
    {
        self.summary.frames == 0 && self.conflicts.len() == 0
    }
}

proof fn lemma_drops_are_untouched(summary: Summary, records: Seq<RecordModel>)
    ensures
        summary.with_events(records).buffer_drops == summary.buffer_drops,
        summary.with_events(records).native_events == summary.native_events,
    decreases records.len(),
{
    if records.len() > 0 {
        lemma_drops_are_untouched(summary, records.drop_last());
    }
}

proof fn lemma_contains_either<A>(a: Seq<A>, b: Seq<A>, x: A)
    ensures
        (a + b).contains(x) <==> a.contains(x) || b.contains(x),
{
    if a.contains(x) {
        assert((a + b)[a.index_of(x)] == x);
    }
    if b.contains(x) {
        assert((a + b)[a.len() + b.index_of(x)] == x);
    }
    if (a + b).contains(x) {
        let i = (a + b).index_of(x);
        if i < a.len() {
            assert(a[i] == x);
        } else {
            assert(b[i - a.len()] == x);
        }
    }
}

/// What is said of a conflict.
pub open spec fn conflict_text(conflict: ConflictModel) -> Seq<char> {
    "raw-mode conflict on "@ + conflict.device_key + ": expected 0x"@ + hexadecimal(
        conflict.expected as nat,
        2,
    ) + ", observed 0x"@ + hexadecimal(conflict.actual as nat, 2)
        + "; the Agent will not overwrite it"@
}

/// What is said of a conflict.
pub fn conflict_line(conflict: &TouchpadRawModeConflict) -> (line: String)
    ensures
        line@ == conflict_text(conflict@),
{
    let mut line = "raw-mode conflict on ".to_owned();
    line.append(conflict.device_key.as_str());
    line.append(": expected 0x");
    push_hexadecimal(&mut line, conflict.expected as u32, 2);
    line.append(", observed 0x");
    push_hexadecimal(&mut line, conflict.actual as u32, 2);
    line.append("; the Agent will not overwrite it");
    line
}

/// A touchpad that can be traced.
#[derive(Debug, PartialEq, Eq)]
pub struct Candidate {
    pub name: String,
    pub key: String,
}

/// The model of a [`Candidate`].
pub ghost struct CandidateModel {
    pub name: Seq<char>,
    pub key: Seq<char>,
}

impl View for Candidate {
    type V = CandidateModel;

    open spec fn view(&self) -> CandidateModel {
        CandidateModel { name: self.name@, key: self.key@ }
    }
}

impl Replicate for Candidate {
    fn replicate(&self) -> (copy: Self) {
        Candidate { name: self.name.replicate(), key: self.key.replicate() }
    }
}

/// What a device is called.
pub open spec fn shown_name(device: PairedDevice) -> Seq<char> {
    match device.codename {
        Some(name) => name@,
        None => "Slot "@ + decimal(device.slot as nat),
    }
}

/// The key a device's settings are kept under.
pub open spec fn settings_key(
    config: ConfigModel,
    inventory: DeviceInventory,
    device: PairedDevice,
) -> Option<Seq<char>> {
    match device.model_info {
        Some(model) => config.resolved(
            StableModel::of_parts(
                inventory.route_to(device.slot),
                device.slot,
                opt(model.serial_number),
                model.unit_id@,
            ),
            identity_of(device),
        ),
        None => None,
    }
}

/// The touchpads with one more device looked at: the first name for a key stays.
pub open spec fn with_candidate(
    found: Map<Seq<char>, Seq<char>>,
    config: ConfigModel,
    inventory: DeviceInventory,
    device: PairedDevice,
) -> Map<Seq<char>, Seq<char>> {
    match settings_key(config, inventory, device) {
        Some(key) => if online_touchpad(device) && !found.contains_key(key) {
            found.insert(key, shown_name(device))
        } else {
            found
        },
        None => found,
    }
}

/// The touchpads with several devices of one inventory looked at.
pub open spec fn with_candidates(
    found: Map<Seq<char>, Seq<char>>,
    config: ConfigModel,
    inventory: DeviceInventory,
    devices: Seq<PairedDevice>,
) -> Map<Seq<char>, Seq<char>>
    decreases devices.len(),
{
    if devices.len() == 0 {
        found
    } else {
        with_candidate(
            with_candidates(found, config, inventory, devices.drop_last()),
            config,
            inventory,
            devices.last(),
        )
    }
}

/// The touchpads that can be traced, by key.
pub open spec fn candidates_by_key(
    inventories: Seq<DeviceInventory>,
    config: ConfigModel,
) -> Map<Seq<char>, Seq<char>>
    decreases inventories.len(),
{
    if inventories.len() == 0 {
        Map::empty()
    } else {
        with_candidates(
            candidates_by_key(inventories.drop_last(), config),
            config,
            inventories.last(),
            inventories.last().paired@,
        )
    }
}

/// The touchpads that can be traced, in the order of their keys.
pub open spec fn candidate_list(found: Map<Seq<char>, Seq<char>>) -> Seq<CandidateModel> {
    let keys = key_order::<String, Seq<char>>(found);
    Seq::new(keys.len(), |i: int| CandidateModel { name: found[keys[i]], key: keys[i] })
}

fn name_of(device: &PairedDevice) -> (name: String)
    ensures
        name@ == shown_name(*device),
{
    match &device.codename {
        Some(name) => name.replicate(),
        None => {
            let mut name = "Slot ".to_owned();
            push_decimal(&mut name, device.slot as u64);
            name
        },
    }
}

fn key_of(config: &Config, inventory: &DeviceInventory, device: &PairedDevice) -> (key: Option<
    String,
>)
    ensures
        opt(key) == settings_key(config@, *inventory, *device),
{
    let model = match &device.model_info {
        Some(model) => model,
        None => {
            return None;
        },
    };
    let identity = match journal_identity(device) {
        Some(identity) => identity,
        None => {
            return None;
        },
    };
    let serial = match &model.serial_number {
        Some(serial) => Some(serial.as_str()),
        None => None,
    };
    let route = DeviceRoute::device_route_for(inventory, device.slot);
    let route_ref = match &route {
        Some(route) => Some(route),
        None => None,
    };
    let stable = DeviceStableId::from_parts(route_ref, device.slot, serial, model.unit_id);
    match config.resolve_device_key(&stable, Some(&identity)) {
        Some(key) => Some(key.into_string()),
        None => None,
    }
}

/// The touchpads that can be traced.
pub fn touchpad_candidates(
    inventories: &Vec<DeviceInventory>,
    config: &Config,
) -> (candidates: Vec<Candidate>)
    ensures
        each(candidates@) == candidate_list(candidates_by_key(inventories@, config@)),
{
    let mut found: OrderedMap<String, String> = OrderedMap::new();
    let mut i: usize = 0;
    assert(inventories@.take(0) =~= Seq::<DeviceInventory>::empty());
    while i < inventories.len()
        invariant
            i <= inventories@.len(),
            found@ == candidates_by_key(inventories@.take(i as int), config@),
        decreases inventories@.len() - i,
    {
        let inventory = &inventories[i];
        let ghost start = found@;
        let ghost devices = inventory.paired@;
        let mut j: usize = 0;
        assert(devices.take(0) =~= Seq::<PairedDevice>::empty());
        while j < inventory.paired.len()
            invariant
                devices == inventory.paired@,
                j <= devices.len(),
                found@ == with_candidates(start, config@, *inventory, devices.take(j as int)),
            decreases devices.len() - j,
        {
            let device = &inventory.paired[j];
            proof {
                assert(devices.take(j + 1).drop_last() =~= devices.take(j as int));
                assert(devices.take(j + 1).last() == *device);
            }
            if is_online_touchpad(device) {
                if let Some(key) = key_of(config, inventory, device) {
                    if !found.contains_key(key.as_str()) {
                        let _ = found.insert(key, name_of(device));
                    }
                }
            }
            j += 1;
        }
        proof {
            assert(devices.take(j as int) =~= devices);
            assert(inventories@.take(i + 1).drop_last() =~= inventories@.take(i as int));
            assert(inventories@.take(i + 1).last() == *inventory);
        }
        i += 1;
    }
    assert(inventories@.take(i as int) =~= inventories@);
    let ghost order = found.order();
    let n: usize = found.len();
    let mut candidates: Vec<Candidate> = Vec::new();
    let mut i: usize = 0;
    while i < n
        invariant
            n == order.len(),
            order == found.order(),
            i <= n,
            candidates@.len() == i,
            forall|j: int|
                0 <= j < i ==> (#[trigger] candidates@[j])@ == (CandidateModel {
                    name: found@[order[j]],
                    key: order[j],
                }),
        decreases n - i,
    {
        candidates.push(
            Candidate {
                name: found.value_at(i).replicate(),
                key: found.key_at(i).replicate(),
            },
        );
        i += 1;
    }
    proof {
        let listed = key_order::<String, Seq<char>>(found@);
        assert(is_key_order::<String, Seq<char>>(listed, found@));
        lemma_key_order_is_unique::<String, Seq<char>>(order, listed, found@);
        assert(each(candidates@) =~= candidate_list(found@));
    }
    candidates
}

/// A text in small letters, of whatever script.
pub uninterp spec fn lowercase(text: Seq<char>) -> Seq<char>;

/// The small letters of a text, by [`str::to_lowercase`]: what it gives depends
/// on the text alone. Which letter is the small one of which is left to Unicode
/// and not said here.
#[verifier::external_body]
fn to_lowercase(text: &str) -> (lower: String)
    ensures
        lower@ == lowercase(text@),
{
    text.to_lowercase()
}

/// Whether `part` stands somewhere in `text`.
pub open spec fn holds_text(text: Seq<char>, part: Seq<char>) -> bool {
    exists|i: int| #[trigger] stands_at(text, part, i)
}

/// Whether `part` stands in `text` from position `i`.
pub open spec fn stands_at(text: Seq<char>, part: Seq<char>, i: int) -> bool {
    0 <= i && i + part.len() <= text.len() && text.subrange(i, i + part.len()) == part
}

fn contains_text(text: &str, part: &str) -> (yes: bool)
    ensures
        yes == holds_text(text@, part@),
{
    let n: usize = text.unicode_len();
    let m: usize = part.unicode_len();
    if m > n {
        proof {
            assert forall|i: int| !#[trigger] stands_at(text@, part@, i) by {}
        }
        return false;
    }
    let mut i: usize = 0;
    while i <= n - m
        invariant
            n == text@.len(),
            m == part@.len(),
            m <= n,
            i <= n - m + 1,
            forall|j: int| 0 <= j < i ==> !#[trigger] stands_at(text@, part@, j),
        decreases n - m + 1 - i,
    {
        if same_text(text.substring_char(i, i + m), part) {
            assert(stands_at(text@, part@, i as int));
            return true;
        }
        proof {
            assert(!stands_at(text@, part@, i as int));
        }
        if i == n - m {
            proof {
                assert forall|j: int| !#[trigger] stands_at(text@, part@, j) by {
                    if stands_at(text@, part@, j) {
                        assert(0 <= j <= n - m);
                    }
                }
            }
            return false;
        }
        i += 1;
    }
    false
}

/// A touchpad with its name and key in small letters.
pub ghost struct LoweredModel {
    pub name: Seq<char>,
    pub key: Seq<char>,
}

/// Whether a touchpad is meant by `needle`, all in small letters.
pub open spec fn meant_by(lowered: LoweredModel, needle: Seq<char>) -> bool {
    holds_text(lowered.name, needle) || holds_text(lowered.key, needle)
}

/// A touchpad in small letters.
pub open spec fn lowered(candidate: CandidateModel) -> LoweredModel {
    LoweredModel { name: lowercase(candidate.name), key: lowercase(candidate.key) }
}

/// The touchpads in small letters.
pub open spec fn all_lowered(candidates: Seq<CandidateModel>) -> Seq<LoweredModel> {
    Seq::new(candidates.len(), |i: int| lowered(candidates[i]))
}

/// The touchpads that are meant by `needle`, where `lowered` are they in small
/// letters.
pub open spec fn meant(
    candidates: Seq<CandidateModel>,
    lowered: Seq<LoweredModel>,
    needle: Seq<char>,
) -> Seq<CandidateModel>
    decreases candidates.len(),
{
    if candidates.len() == 0 {
        Seq::empty()
    } else {
        let before = meant(candidates.drop_last(), lowered, needle);
        if meant_by(lowered[candidates.len() - 1], needle) {
            before.push(candidates.last())
        } else {
            before
        }
    }
}

/// Touchpads as they are listed.
pub open spec fn listing(candidates: Seq<CandidateModel>) -> Seq<Seq<char>> {
    Seq::new(
        candidates.len(),
        |i: int| candidates[i].name + " ("@ + candidates[i].key + ")"@,
    )
}

/// Touchpads as they are listed, in one line.
pub open spec fn listing_text(candidates: Seq<CandidateModel>) -> Seq<char> {
    separated(listing(candidates), ", "@)
}

fn list_candidates(candidates: &Vec<Candidate>) -> (text: String)
    ensures
        text@ == listing_text(each(candidates@)),
{
    let ghost all = each(candidates@);
    let mut parts: Vec<String> = Vec::new();
    let mut i: usize = 0;
    while i < candidates.len()
        invariant
            all == each(candidates@),
            i <= all.len(),
            parts@.len() == i,
            forall|j: int| 0 <= j < i ==> (#[trigger] parts@[j])@ == listing(all)[j],
        decreases all.len() - i,
    {
        let mut part = candidates[i].name.replicate();
        part.append(" (");
        part.append(candidates[i].key.as_str());
        part.append(")");
        parts.push(part);
        i += 1;
    }
    assert(each(parts@) =~= listing(all));
    joined_with(&parts, ", ")
}

/// More than one touchpad is meant.
#[derive(Debug, PartialEq, Eq)]
pub struct AmbiguousQuery {
    pub message: String,
}

/// What is said where more than one touchpad is meant.
pub open spec fn ambiguous_text(query: Seq<char>, matches: Seq<CandidateModel>) -> Seq<char> {
    "`--device "@ + query + "` is ambiguous; matches: "@ + listing_text(matches)
}

/// The touchpads in small letters.
pub struct Lowered {
    pub name: String,
    pub key: String,
}

impl View for Lowered {
    type V = LoweredModel;

    open spec fn view(&self) -> LoweredModel {
        LoweredModel { name: self.name@, key: self.key@ }
    }
}

/// The one touchpad that is meant by `needle`, where `lowered` are the
/// touchpads in small letters; an error where there are more.
pub fn match_lowered(
    candidates: &Vec<Candidate>,
    lowered: &Vec<Lowered>,
    needle: &str,
    query: &str,
) -> (result: Result<Option<String>, AmbiguousQuery>)
    requires
        candidates@.len() == lowered@.len(),
    ensures
        ({
            let matches = meant(each(candidates@), each(lowered@), needle@);
            match result {
                Ok(None) => matches.len() == 0,
                Ok(Some(key)) => matches.len() == 1 && key@ == matches[0].key,
                Err(error) => matches.len() > 1 && error.message@ == ambiguous_text(
                    query@,
                    matches,
                ),
            }
        }),
{
    let ghost all = each(candidates@);
    let ghost small = each(lowered@);
    let mut matches: Vec<Candidate> = Vec::new();
    let mut i: usize = 0;
    proof {
        assert(all.take(0) =~= Seq::<CandidateModel>::empty());
        assert(each(matches@) =~= Seq::<CandidateModel>::empty());
    }
    while i < candidates.len()
        invariant
            all == each(candidates@),
            small == each(lowered@),
            candidates@.len() == lowered@.len(),
            i <= all.len(),
            each(matches@) == meant(all.take(i as int), small, needle@),
        decreases all.len() - i,
    {
        let ghost before = each(matches@);
        proof {
            assert(all.take(i + 1).drop_last() =~= all.take(i as int));
            assert(all.take(i + 1).last() == candidates@[i as int]@);
            assert(small[i as int] == lowered@[i as int]@);
        }
        if contains_text(lowered[i].name.as_str(), needle) || contains_text(
            lowered[i].key.as_str(),
            needle,
        ) {
            matches.push(candidates[i].replicate());
            assert(each(matches@) =~= before.push(candidates@[i as int]@));
        }
        i += 1;
    }
    proof {
        assert(all.take(i as int) =~= all);
        assert(each(matches@).len() == matches@.len());
    }
    if matches.len() == 0 {
        Ok(None)
    } else if matches.len() == 1 {
        assert(each(matches@)[0] == matches@[0]@);
        Ok(Some(matches[0].key.replicate()))
    } else {
        let mut message = "`--device ".to_owned();
        message.append(query);
        message.append("` is ambiguous; matches: ");
        message.append(list_candidates(&matches).as_str());
        Err(AmbiguousQuery { message })
    }
}

/// The one touchpad whose name or key has `query` in it, capitals or not; an
/// error where there are more.
pub fn match_device_query(candidates: &Vec<Candidate>, query: &str) -> (result: Result<
    Option<String>,
    AmbiguousQuery,
>)
    ensures
        ({
            let all = each(candidates@);
            let matches = meant(all, all_lowered(all), lowercase(query@));
            match result {
                Ok(None) => matches.len() == 0,
                Ok(Some(key)) => matches.len() == 1 && key@ == matches[0].key,
                Err(error) => matches.len() > 1 && error.message@ == ambiguous_text(
                    query@,
                    matches,
                ),
            }
        }),
{
    let needle = to_lowercase(query);
    let ghost all = each(candidates@);
    let mut small: Vec<Lowered> = Vec::new();
    let mut i: usize = 0;
    while i < candidates.len()
        invariant
            all == each(candidates@),
            i <= all.len(),
            small@.len() == i,
            forall|j: int| 0 <= j < i ==> (#[trigger] small@[j])@ == lowered(all[j]),
        decreases all.len() - i,
    {
        small.push(
            Lowered {
                name: to_lowercase(candidates[i].name.as_str()),
                key: to_lowercase(candidates[i].key.as_str()),
            },
        );
        i += 1;
    }
    assert(each(small@) =~= all_lowered(all));
    match_lowered(candidates, &small, needle.as_str(), query)
}

/// Which touchpad to trace.
#[derive(Debug, PartialEq, Eq)]
pub enum Selection {
    /// The one under this key.
    Chosen(String),
    /// None yet: look again.
    Wait,
    /// None, and this is why.
    Fail(String),
}

/// The model of a [`Selection`].
pub ghost enum SelectionModel {
    Chosen(Seq<char>),
    Wait,
    Fail(Seq<char>),
}

impl View for Selection {
    type V = SelectionModel;

    open spec fn view(&self) -> SelectionModel {
        match self {
            Selection::Chosen(key) => SelectionModel::Chosen(key@),
            Selection::Wait => SelectionModel::Wait,
            Selection::Fail(message) => SelectionModel::Fail(message@),
        }
    }
}

/// Whether a touchpad has a key.
pub open spec fn has_key(candidates: Seq<CandidateModel>, key: Seq<char>) -> bool {
    exists|i: int| 0 <= i < candidates.len() && (#[trigger] candidates[i]).key == key
}

/// What a look that found no touchpad to trace leads to.
pub open spec fn undecided(
    candidates: Seq<CandidateModel>,
    query: Option<Seq<char>>,
    deadline_passed: bool,
) -> SelectionModel {
    if candidates.len() == 0 {
        if deadline_passed {
            SelectionModel::Fail("no online raw-touchpad device was reported by the Agent"@)
        } else {
            SelectionModel::Wait
        }
    } else {
        match query {
            Some(query) => SelectionModel::Fail(
                "no raw-touchpad device matches `--device "@ + query + "`; available: "@
                    + listing_text(candidates),
            ),
            None => SelectionModel::Fail(
                "multiple raw-touchpad devices are online; select one with `--device`: "@
                    + listing_text(candidates),
            ),
        }
    }
}

/// The touchpad to trace: the one asked for, else the one shown, else the only
/// one.
pub open spec fn selection(
    candidates: Seq<CandidateModel>,
    query: Option<Seq<char>>,
    selected: Option<Seq<char>>,
    deadline_passed: bool,
) -> SelectionModel {
    match query {
        Some(query) => {
            let matches = meant(candidates, all_lowered(candidates), lowercase(query));
            if matches.len() > 1 {
                SelectionModel::Fail(ambiguous_text(query, matches))
            } else if matches.len() == 1 {
                SelectionModel::Chosen(matches[0].key)
            } else {
                undecided(candidates, Some(query), deadline_passed)
            }
        },
        None => if selected matches Some(key) && has_key(candidates, key) {
            SelectionModel::Chosen(selected.unwrap())
        } else if candidates.len() == 1 {
            SelectionModel::Chosen(candidates[0].key)
        } else {
            undecided(candidates, None, deadline_passed)
        },
    }
}

fn keyed(candidates: &Vec<Candidate>, key: &str) -> (yes: bool)
    ensures
        yes == has_key(each(candidates@), key@),
{
    let mut i: usize = 0;
    while i < candidates.len()
        invariant
            i <= candidates@.len(),
            forall|j: int| 0 <= j < i ==> (#[trigger] each(candidates@)[j]).key != key@,
        decreases candidates@.len() - i,
    {
        if same_text(candidates[i].key.as_str(), key) {
            assert(each(candidates@)[i as int].key == key@);
            return true;
        }
        i += 1;
    }
    false
}

/// Which touchpad to trace.
pub fn select_device(
    candidates: &Vec<Candidate>,
    query: Option<&str>,
    selected: Option<&str>,
    deadline_passed: bool,
) -> (chosen: Selection)
    ensures
        chosen@ == selection(
            each(candidates@),
            match query {
                Some(query) => Some(query@),
                None => None,
            },
            match selected {
                Some(key) => Some(key@),
                None => None,
            },
            deadline_passed,
        ),
{
    match query {
        Some(query) => match match_device_query(candidates, query) {
            Ok(Some(key)) => {
                return Selection::Chosen(key);
            },
            Ok(None) => {},
            Err(error) => {
                return Selection::Fail(error.message);
            },
        },
        None => {
            if let Some(key) = selected {
                if keyed(candidates, key) {
                    return Selection::Chosen(key.to_owned());
                }
            }
            if candidates.len() == 1 {
                assert(each(candidates@)[0] == candidates@[0]@);
                return Selection::Chosen(candidates[0].key.replicate());
            }
        },
    }
    if candidates.len() == 0 {
        return if deadline_passed {
            Selection::Fail("no online raw-touchpad device was reported by the Agent".to_owned())
        } else {
            Selection::Wait
        };
    }
    let available = list_candidates(candidates);
    match query {
        Some(query) => {
            let mut message = "no raw-touchpad device matches `--device ".to_owned();
            message.append(query);
            message.append("`; available: ");
            message.append(available.as_str());
            Selection::Fail(message)
        },
        None => {
            let mut message =
                "multiple raw-touchpad devices are online; select one with `--device`: ".to_owned();
            message.append(available.as_str());
            Selection::Fail(message)
        },
    }
}

/// No touchpad is traced but one that can be: a query that means several, or
/// none, chooses none.
pub proof fn law_a_query_chooses_exactly_one(
    candidates: Seq<CandidateModel>,
    query: Seq<char>,
    selected: Option<Seq<char>>,
    deadline_passed: bool,
)
    ensures
        selection(candidates, Some(query), selected, deadline_passed) is Chosen <==> meant(
            candidates,
            all_lowered(candidates),
            lowercase(query),
        ).len() == 1,
{
}

proof fn lemma_meant_are_candidates(
    candidates: Seq<CandidateModel>,
    lowered: Seq<LoweredModel>,
    needle: Seq<char>,
    i: int,
)
    requires
        0 <= i < meant(candidates, lowered, needle).len(),
    ensures
        candidates.contains(meant(candidates, lowered, needle)[i]),
    decreases candidates.len(),
{
    let matches = meant(candidates, lowered, needle);
    let before = meant(candidates.drop_last(), lowered, needle);
    if i < before.len() {
        lemma_meant_are_candidates(candidates.drop_last(), lowered, needle, i);
        let j = candidates.drop_last().index_of(before[i]);
        assert(candidates[j] == before[i]);
    } else {
        assert(candidates[candidates.len() - 1] == matches[i]);
    }
}

/// Whatever is traced is a touchpad that can be.
pub proof fn law_what_is_traced_is_a_candidate(
    candidates: Seq<CandidateModel>,
    query: Option<Seq<char>>,
    selected: Option<Seq<char>>,
    deadline_passed: bool,
)
    ensures
        selection(candidates, query, selected, deadline_passed) matches SelectionModel::Chosen(key)
            ==> has_key(candidates, key),
{
    match query {
        Some(query) => {
            let lowered = all_lowered(candidates);
            let needle = lowercase(query);
            if meant(candidates, lowered, needle).len() == 1 {
                lemma_meant_are_candidates(candidates, lowered, needle, 0);
                let j = candidates.index_of(meant(candidates, lowered, needle)[0]);
                assert(candidates[j].key == meant(candidates, lowered, needle)[0].key);
            }
        },
        None => {
            if candidates.len() == 1 {
                assert(candidates[0].key == candidates[0].key);
            }
        },
    }
}

proof fn lemma_unseen_are_new(seen: Seq<ConflictModel>, conflicts: Seq<ConflictModel>)
    ensures
        forall|i: int|
            0 <= i < unseen(seen, conflicts).len() ==> !seen.contains(
                #[trigger] unseen(seen, conflicts)[i],
            ),
        forall|c: ConflictModel|
            #[trigger] conflicts.contains(c) ==> seen.contains(c) || unseen(
                seen,
                conflicts,
            ).contains(c),
    decreases conflicts.len(),
{
    if conflicts.len() > 0 {
        let fewer = conflicts.drop_last();
        lemma_unseen_are_new(seen, fewer);
        let before = unseen(seen, fewer);
        let after = unseen(seen, conflicts);
        assert forall|c: ConflictModel| #[trigger] conflicts.contains(c) implies seen.contains(c)
            || after.contains(c) by {
            if c == conflicts.last() {
                if !seen.contains(c) && !before.contains(c) {
                    assert(after[before.len() as int] == c);
                }
            } else {
                assert(fewer.contains(c)) by {
                    let j = conflicts.index_of(c);
                    assert(fewer[j] == c);
                }
                if before.contains(c) {
                    assert(after[before.index_of(c)] == c);
                }
            }
        }
    }
}

/// Each conflict is reported once: never again after it was, and never left out.
pub proof fn law_each_conflict_is_reported_once(
    seen: Seq<ConflictModel>,
    conflicts: Seq<ConflictModel>,
)
    ensures
        forall|i: int|
            0 <= i < unseen(seen, conflicts).len() ==> !seen.contains(
                #[trigger] unseen(seen, conflicts)[i],
            ),
        forall|c: ConflictModel|
            #[trigger] conflicts.contains(c) ==> seen.contains(c) || unseen(
                seen,
                conflicts,
            ).contains(c),
{
    lemma_unseen_are_new(seen, conflicts);
}

/// Whether a query names a touchpad: it stands in the touchpad's name or in its
/// key, capital letters or not.
pub open spec fn mentions(query: Seq<char>, candidate: CandidateModel) -> bool {
    ||| holds_text(lowercase(candidate.name), lowercase(query))
    ||| holds_text(lowercase(candidate.key), lowercase(query))
}

proof fn lemma_none_are_meant(
    candidates: Seq<CandidateModel>,
    lowered: Seq<LoweredModel>,
    needle: Seq<char>,
)
    requires
        forall|j: int| 0 <= j < candidates.len() ==> !#[trigger] meant_by(lowered[j], needle),
    ensures
        meant(candidates, lowered, needle).len() == 0,
    decreases candidates.len(),
{
    if candidates.len() > 0 {
        lemma_none_are_meant(candidates.drop_last(), lowered, needle);
    }
}

proof fn lemma_one_is_meant(
    candidates: Seq<CandidateModel>,
    lowered: Seq<LoweredModel>,
    needle: Seq<char>,
    i: int,
)
    requires
        0 <= i < candidates.len(),
        meant_by(lowered[i], needle),
        forall|j: int|
            0 <= j < candidates.len() && j != i ==> !#[trigger] meant_by(lowered[j], needle),
    ensures
        meant(candidates, lowered, needle) == seq![candidates[i]],
    decreases candidates.len(),
{
    let fewer = candidates.drop_last();
    if i == candidates.len() - 1 {
        lemma_none_are_meant(fewer, lowered, needle);
        assert(meant(candidates, lowered, needle) =~= seq![candidates[i]]);
    } else {
        lemma_one_is_meant(fewer, lowered, needle, i);
    }
}

proof fn lemma_some_are_meant(
    candidates: Seq<CandidateModel>,
    lowered: Seq<LoweredModel>,
    needle: Seq<char>,
    i: int,
)
    requires
        0 <= i < candidates.len(),
        meant_by(lowered[i], needle),
    ensures
        meant(candidates, lowered, needle).len() > 0,
    decreases candidates.len(),
{
    if i < candidates.len() - 1 {
        lemma_some_are_meant(candidates.drop_last(), lowered, needle, i);
    }
}

proof fn lemma_several_are_meant(
    candidates: Seq<CandidateModel>,
    lowered: Seq<LoweredModel>,
    needle: Seq<char>,
    i: int,
    j: int,
)
    requires
        0 <= i < j < candidates.len(),
        meant_by(lowered[i], needle),
        meant_by(lowered[j], needle),
    ensures
        meant(candidates, lowered, needle).len() > 1,
    decreases candidates.len(),
{
    if j < candidates.len() - 1 {
        lemma_several_are_meant(candidates.drop_last(), lowered, needle, i, j);
    } else {
        lemma_some_are_meant(candidates.drop_last(), lowered, needle, i);
    }
}

/// A query that names one touchpad traces that one, whatever is shown and
/// however long it took; one that names several traces none; one that names none
/// fails, except that a look that finds no touchpad at all is repeated until the
/// time for it is over.
pub proof fn law_a_query_traces_what_it_names(
    candidates: Seq<CandidateModel>,
    query: Seq<char>,
    selected: Option<Seq<char>>,
    deadline_passed: bool,
)
    ensures
        forall|i: int|
            0 <= i < candidates.len() && #[trigger] mentions(query, candidates[i]) && (forall|
                j: int,
            |
                0 <= j < candidates.len() && j != i ==> !#[trigger] mentions(query, candidates[j]))
                ==> selection(candidates, Some(query), selected, deadline_passed)
                == SelectionModel::Chosen(candidates[i].key),
        forall|i: int, j: int|
            0 <= i < j < candidates.len() && #[trigger] mentions(query, candidates[i])
                && #[trigger] mentions(query, candidates[j]) ==> selection(
                candidates,
                Some(query),
                selected,
                deadline_passed,
            ) is Fail,
        candidates.len() > 0 && (forall|i: int|
            0 <= i < candidates.len() ==> !#[trigger] mentions(query, candidates[i])) ==> selection(
            candidates,
            Some(query),
            selected,
            deadline_passed,
        ) is Fail,
        candidates.len() == 0 ==> (selection(candidates, Some(query), selected, deadline_passed) is Wait
            <==> !deadline_passed) && !(selection(
            candidates,
            Some(query),
            selected,
            deadline_passed,
        ) is Chosen),
{
    let small = all_lowered(candidates);
    let needle = lowercase(query);
    assert forall|j: int| 0 <= j < candidates.len() implies (#[trigger] meant_by(small[j], needle)
        <==> mentions(query, candidates[j])) by {}
    assert forall|i: int|
        0 <= i < candidates.len() && #[trigger] mentions(query, candidates[i]) && (forall|j: int|
            0 <= j < candidates.len() && j != i ==> !#[trigger] mentions(
                query,
                candidates[j],
            )) implies selection(candidates, Some(query), selected, deadline_passed)
        == SelectionModel::Chosen(candidates[i].key) by {
        assert(meant_by(small[i], needle));
        lemma_one_is_meant(candidates, small, needle, i);
    }
    assert forall|i: int, j: int|
        0 <= i < j < candidates.len() && #[trigger] mentions(query, candidates[i])
            && #[trigger] mentions(query, candidates[j]) implies selection(
        candidates,
        Some(query),
        selected,
        deadline_passed,
    ) is Fail by {
        assert(meant_by(small[i], needle) && meant_by(small[j], needle));
        lemma_several_are_meant(candidates, small, needle, i, j);
    }
    if forall|i: int| 0 <= i < candidates.len() ==> !#[trigger] mentions(query, candidates[i]) {
        lemma_none_are_meant(candidates, small, needle);
    }
}

/// With nothing asked for, the touchpad that is shown is traced where it can be,
/// else the only one there is; of several none is, and with none the look is
/// repeated until the time for it is over.
pub proof fn law_what_is_traced_unasked(
    candidates: Seq<CandidateModel>,
    selected: Option<Seq<char>>,
    deadline_passed: bool,
)
    ensures
        selected matches Some(key) ==> (has_key(candidates, key) ==> selection(
            candidates,
            None,
            selected,
            deadline_passed,
        ) == SelectionModel::Chosen(key)),
        !(selected matches Some(key) && has_key(candidates, key)) ==> {
            &&& candidates.len() == 1 ==> selection(candidates, None, selected, deadline_passed)
                == SelectionModel::Chosen(candidates[0].key)
            &&& candidates.len() > 1 ==> selection(
                candidates,
                None,
                selected,
                deadline_passed,
            ) is Fail
            &&& candidates.len() == 0 && deadline_passed ==> selection(
                candidates,
                None,
                selected,
                deadline_passed,
            ) is Fail
            &&& candidates.len() == 0 && !deadline_passed ==> selection(
                candidates,
                None,
                selected,
                deadline_passed,
            ) is Wait
        },
{
}

/// Whether a device can be traced under a key: it is online, it was found to
/// have a raw touchpad, and its settings are kept under that key.
pub open spec fn traced_as(
    config: ConfigModel,
    inventory: DeviceInventory,
    device: PairedDevice,
    key: Seq<char>,
) -> bool {
    device.online && device.capabilities is Some && device.capabilities.unwrap().touchpad_raw_xy
        && settings_key(config, inventory, device) == Some(key)
}

proof fn lemma_devices_are_candidates(
    found: Map<Seq<char>, Seq<char>>,
    config: ConfigModel,
    inventory: DeviceInventory,
    devices: Seq<PairedDevice>,
    key: Seq<char>,
)
    ensures
        found.contains_key(key) ==> with_candidates(found, config, inventory, devices).contains_key(
            key,
        ) && with_candidates(found, config, inventory, devices)[key] == found[key],
        with_candidates(found, config, inventory, devices).contains_key(key) <==> (
        found.contains_key(key) || exists|m: int|
            0 <= m < devices.len() && #[trigger] traced_as(config, inventory, devices[m], key)),
        !found.contains_key(key) ==> forall|m: int|
            0 <= m < devices.len() && #[trigger] traced_as(config, inventory, devices[m], key) && (
            forall|e: int|
                0 <= e < m ==> !#[trigger] traced_as(config, inventory, devices[e], key))
                ==> with_candidates(found, config, inventory, devices)[key] == shown_name(
                devices[m],
            ),
    decreases devices.len(),
{
    if devices.len() > 0 {
        let fewer = devices.drop_last();
        lemma_devices_are_candidates(found, config, inventory, fewer, key);
        let before = with_candidates(found, config, inventory, fewer);
        let after = with_candidates(found, config, inventory, devices);
        let last = devices.len() - 1;
        if exists|m: int|
            0 <= m < fewer.len() && #[trigger] traced_as(config, inventory, fewer[m], key) {
            let m = choose|m: int|
                0 <= m < fewer.len() && #[trigger] traced_as(config, inventory, fewer[m], key);
            assert(traced_as(config, inventory, devices[m], key));
        }
        assert forall|m: int|
            0 <= m < devices.len() && #[trigger] traced_as(config, inventory, devices[m], key)
                implies m == last || traced_as(config, inventory, fewer[m], key) by {}
        assert(after == with_candidate(before, config, inventory, devices[last]));
        assert(traced_as(config, inventory, devices[last], key) ==> after.contains_key(key));
        assert(after.contains_key(key) && !before.contains_key(key) ==> traced_as(
            config,
            inventory,
            devices[last],
            key,
        ));
        if !found.contains_key(key) {
            assert forall|m: int|
                0 <= m < devices.len() && #[trigger] traced_as(config, inventory, devices[m], key)
                    && (forall|e: int|
                    0 <= e < m ==> !#[trigger] traced_as(
                        config,
                        inventory,
                        devices[e],
                        key,
                    )) implies after[key] == shown_name(devices[m]) by {
                assert forall|e: int| 0 <= e < m && e < fewer.len() implies !#[trigger] traced_as(
                    config,
                    inventory,
                    fewer[e],
                    key,
                ) by {
                    assert(!traced_as(config, inventory, devices[e], key));
                }
                if m < last {
                    assert(traced_as(config, inventory, fewer[m], key));
                    assert(before.contains_key(key));
                } else {
                    assert(!before.contains_key(key));
                }
            }
        }
    }
}

/// Whether the device at a place of the inventories can be traced under a key.
pub open spec fn traced_at(
    inventories: Seq<DeviceInventory>,
    config: ConfigModel,
    key: Seq<char>,
    n: int,
    m: int,
) -> bool {
    0 <= n < inventories.len() && 0 <= m < inventories[n].paired@.len() && traced_as(
        config,
        inventories[n],
        inventories[n].paired@[m],
        key,
    )
}

/// The touchpads to choose from are those that are online, one for each key, by
/// the name of the first device found under it.
pub proof fn law_what_can_be_traced(
    inventories: Seq<DeviceInventory>,
    config: ConfigModel,
    key: Seq<char>,
)
    ensures
        candidates_by_key(inventories, config).contains_key(key) <==> exists|n: int, m: int|
            #[trigger] traced_at(inventories, config, key, n, m),
        forall|n: int, m: int|
            #[trigger] traced_at(inventories, config, key, n, m) && (forall|i: int, j: int|
                i < n || i == n && j < m ==> !#[trigger] traced_at(inventories, config, key, i, j))
                ==> candidates_by_key(inventories, config)[key] == shown_name(
                inventories[n].paired@[m],
            ),
    decreases inventories.len(),
{
    if inventories.len() > 0 {
        let fewer = inventories.drop_last();
        let last = inventories.len() - 1;
        let inventory = inventories[last];
        let devices = inventory.paired@;
        law_what_can_be_traced(fewer, config, key);
        let found = candidates_by_key(fewer, config);
        lemma_devices_are_candidates(found, config, inventory, devices, key);
        assert forall|n: int, m: int| #[trigger]
            traced_at(inventories, config, key, n, m) implies n == last || traced_at(
            fewer,
            config,
            key,
            n,
            m,
        ) by {}
        assert forall|n: int, m: int| #[trigger]
            traced_at(fewer, config, key, n, m) implies traced_at(
            inventories,
            config,
            key,
            n,
            m,
        ) by {}
        assert forall|m: int|
            0 <= m < devices.len() && #[trigger] traced_as(
                config,
                inventory,
                devices[m],
                key,
            ) implies traced_at(inventories, config, key, last, m) by {}
        assert forall|n: int, m: int|
            #[trigger] traced_at(inventories, config, key, n, m) && (forall|i: int, j: int|
                i < n || i == n && j < m ==> !#[trigger] traced_at(
                    inventories,
                    config,
                    key,
                    i,
                    j,
                )) implies candidates_by_key(inventories, config)[key] == shown_name(
            inventories[n].paired@[m],
        ) by {
            assert forall|i: int, j: int| i < n || i == n && j < m implies !#[trigger] traced_at(
                fewer,
                config,
                key,
                i,
                j,
            ) by {}
            if n < last {
                assert(traced_at(fewer, config, key, n, m));
            } else {
                assert(!found.contains_key(key));
                assert forall|e: int| 0 <= e < m implies !#[trigger] traced_as(
                    config,
                    inventory,
                    devices[e],
                    key,
                ) by {
                    assert(!traced_at(inventories, config, key, last, e));
                }
            }
        }
    }
}

/// How many of the records are of one kind.
pub open spec fn how_many(records: Seq<RecordModel>, kind: spec_fn(EventModel) -> bool) -> int
    decreases records.len(),
{
    if records.len() == 0 {
        0
    } else if kind(records.last().event) {
        how_many(records.drop_last(), kind) + 1
    } else {
        how_many(records.drop_last(), kind)
    }
}

/// The frames among events.
pub open spec fn frames() -> spec_fn(EventModel) -> bool {
    |event: EventModel| event is Frame
}

/// The ends of strokes among events.
pub open spec fn ends() -> spec_fn(EventModel) -> bool {
    |event: EventModel| event is End
}

/// The strokes that were called off among events.
pub open spec fn cancels() -> spec_fn(EventModel) -> bool {
    |event: EventModel| event is Cancel
}

/// How many frames the records say were lost.
pub open spec fn lost_frames(records: Seq<RecordModel>) -> int
    decreases records.len(),
{
    if records.len() == 0 {
        0
    } else {
        lost_frames(records.drop_last()) + match records.last().event {
            EventModel::DroppedFrames { count } => count as int,
            _ => 0,
        }
    }
}

proof fn lemma_no_more_than_there_are(
    records: Seq<RecordModel>,
    kind: spec_fn(EventModel) -> bool,
)
    ensures
        0 <= how_many(records, kind) <= records.len(),
    decreases records.len(),
{
    if records.len() > 0 {
        lemma_no_more_than_there_are(records.drop_last(), kind);
    }
}

/// What is counted is what was seen: every frame, every end and every stroke
/// that was called off once, and all the frames that were lost, as far as they
/// can be counted. Nothing else is counted with them.
pub proof fn law_what_is_counted(summary: Summary, records: Seq<RecordModel>)
    requires
        summary.room_for(records.len()),
    ensures
        ({
            let after = summary.with_events(records);
            &&& after.frames == summary.frames + how_many(records, frames())
            &&& after.ends == summary.ends + how_many(records, ends())
            &&& after.cancels == summary.cancels + how_many(records, cancels())
            &&& summary.logical_frame_drops + lost_frames(records) <= u64::MAX
                ==> after.logical_frame_drops == summary.logical_frame_drops + lost_frames(records)
            &&& summary.logical_frame_drops + lost_frames(records) > u64::MAX
                ==> after.logical_frame_drops == u64::MAX
            &&& after.buffer_drops == summary.buffer_drops
            &&& after.native_events == summary.native_events
        }),
    decreases records.len(),
{
    if records.len() > 0 {
        let fewer = records.drop_last();
        law_what_is_counted(summary, fewer);
        lemma_no_more_than_there_are(fewer, frames());
        lemma_no_more_than_there_are(fewer, ends());
        lemma_no_more_than_there_are(fewer, cancels());
    }
}

/// A text is held by another just where the other is the text with something, or
/// nothing, before and behind it.
pub proof fn law_a_held_text_stands_in_one_piece(
    before: Seq<char>,
    part: Seq<char>,
    after: Seq<char>,
    text: Seq<char>,
)
    ensures
        holds_text(before + part + after, part),
        holds_text(text, part) ==> exists|n: int|
            0 <= n <= text.len() && n + part.len() <= text.len() && #[trigger] text.take(n) + part
                + text.skip(n + part.len()) == text,
{
    let whole = before + part + after;
    let n: int = before.len() as int;
    assert(whole.subrange(n, n + part.len()) =~= part);
    assert(stands_at(whole, part, n));
    if holds_text(text, part) {
        let i = choose|i: int| #[trigger] stands_at(text, part, i);
        assert(text.take(i) + part + text.skip(i + part.len()) =~= text) by {
            assert(text.subrange(i, i + part.len()) == part);
            assert forall|j: int| i <= j < i + part.len() implies text[j] == part[j - i] by {
                assert(text.subrange(i, i + part.len())[j - i] == text[j]);
            }
        }
    }
}

}
