//! Restoring what devices forget.
//!
//! A device loses some settings when it loses power. They are written again when
//! it is first met, when it wakes, and after the system has slept. A device that
//! was just met may still be starting, so the write is repeated a few times.

use vstd::prelude::*;

use crate::agent::devices::{AgentDevice, AgentDeviceModel};

use crate::ordered::{each, OrderedMap, Replicate, Same};

verus! {

/// How often a first write is repeated.
pub const VOLATILE_REAPPLY_CONFIRM_RETRIES: u32 = 3;

/// Whether a device was there before.
pub open spec fn met(prev: Seq<AgentDeviceModel>, device: AgentDeviceModel) -> bool {
    exists|i: int| 0 <= i < prev.len() && (#[trigger] prev[i]).stable() == device.stable()
}

/// Whether a device was there before and online.
pub open spec fn met_online(prev: Seq<AgentDeviceModel>, device: AgentDeviceModel) -> bool {
    exists|i: int|
        0 <= i < prev.len() && (#[trigger] prev[i]).stable() == device.stable() && prev[i].online
}

/// Whether a device has come within reach, or all are to be written to.
pub open spec fn arrived(
    prev: Seq<AgentDeviceModel>,
    device: AgentDeviceModel,
    all: bool,
) -> bool {
    device.reachable() && (all || !met_online(prev, device))
}

/// Which of the first `n` devices have come within reach.
pub open spec fn arrivals(
    prev: Seq<AgentDeviceModel>,
    next: Seq<AgentDeviceModel>,
    all: bool,
    n: int,
) -> Seq<int>
    decreases n,
{
    if n <= 0 {
        Seq::empty()
    } else {
        let before = arrivals(prev, next, all, n - 1);
        if arrived(prev, next[n - 1], all) {
            before.push(n - 1)
        } else {
            before
        }
    }
}

/// Whether a device is written to: it has come within reach, or a write to it is
/// to be repeated.
pub open spec fn written_to(
    prev: Seq<AgentDeviceModel>,
    device: AgentDeviceModel,
    repeats: Map<Seq<char>, u32>,
    all: bool,
) -> bool {
    arrived(prev, device, all) || (device.reachable() && repeats.contains_key(device.config_key))
}

/// Which of the first `n` devices are written to.
pub open spec fn writes(
    prev: Seq<AgentDeviceModel>,
    next: Seq<AgentDeviceModel>,
    repeats: Map<Seq<char>, u32>,
    all: bool,
    n: int,
) -> Seq<int>
    decreases n,
{
    if n <= 0 {
        Seq::empty()
    } else {
        let before = writes(prev, next, repeats, all, n - 1);
        if written_to(prev, next[n - 1], repeats, all) {
            before.push(n - 1)
        } else {
            before
        }
    }
}

/// How often the write to a device is to be repeated from now on.
pub open spec fn repeats_left(
    prev: Seq<AgentDeviceModel>,
    device: AgentDeviceModel,
    repeats: Map<Seq<char>, u32>,
    all: bool,
) -> u32 {
    if !device.reachable() {
        0
    } else if all || !met(prev, device) {
        VOLATILE_REAPPLY_CONFIRM_RETRIES
    } else if repeats.contains_key(device.config_key) && repeats[device.config_key] > 0 {
        (repeats[device.config_key] - 1) as u32
    } else {
        0
    }
}

/// How often the writes to the first `n` devices are to be repeated from now on.
pub open spec fn all_repeats(
    prev: Seq<AgentDeviceModel>,
    next: Seq<AgentDeviceModel>,
    repeats: Map<Seq<char>, u32>,
    all: bool,
    n: int,
) -> Map<Seq<char>, u32>
    decreases n,
{
    if n <= 0 {
        Map::empty()
    } else {
        let before = all_repeats(prev, next, repeats, all, n - 1);
        let left = repeats_left(prev, next[n - 1], repeats, all);
        if left > 0 {
            before.insert(next[n - 1].config_key, left)
        } else {
            before
        }
    }
}

/// Positions as numbers.
pub open spec fn positions(indices: Seq<usize>) -> Seq<int> {
    Seq::new(indices.len(), |i: int| indices[i] as int)
}

struct Meeting {
    met: bool,
    met_online: bool,
}

fn look_for(prev: &Vec<AgentDevice>, device: &AgentDevice) -> (meeting: Meeting)
    ensures
        meeting.met == met(each(prev@), device@),
        meeting.met_online == met_online(each(prev@), device@),
{
    let ghost all = each(prev@);
    let stable = device.stable_id();
    let mut meeting = Meeting { met: false, met_online: false };
    let mut i: usize = 0;
    while i < prev.len()
        invariant
            all == each(prev@),
            stable@ == device@.stable(),
            i <= all.len(),
            meeting.met ==> met(all, device@),
            meeting.met_online ==> met_online(all, device@),
            !meeting.met ==> forall|j: int|
                0 <= j < i ==> (#[trigger] all[j]).stable() != device@.stable(),
            !meeting.met_online ==> forall|j: int|
                0 <= j < i ==> (#[trigger] all[j]).stable() != device@.stable() || !all[j].online,
        decreases all.len() - i,
    {
        if prev[i].stable_id().same(&stable) {
            assert(all[i as int] == prev@[i as int]@);
            meeting.met = true;
            if prev[i].online {
                meeting.met_online = true;
            }
        }
        i += 1;
    }
    meeting
}

/// The devices that have come within reach: met for the first time, woken, met
/// on another route; or all within reach, where the system has slept.
pub fn reapply_targets(prev: &Vec<AgentDevice>, next: &Vec<AgentDevice>, all: bool) -> (targets:
    Vec<usize>)
    ensures
        positions(targets@) == arrivals(each(prev@), each(next@), all, next@.len() as int),
{
    let mut targets: Vec<usize> = Vec::new();
    let mut i: usize = 0;
    assert(positions(targets@) =~= Seq::<int>::empty());
    while i < next.len()
        invariant
            i <= next@.len(),
            positions(targets@) == arrivals(each(prev@), each(next@), all, i as int),
        decreases next@.len() - i,
    {
        let ghost before = positions(targets@);
        let device = &next[i];
        assert(each(next@)[i as int] == device@);
        if device.is_reachable() && (all || !look_for(prev, device).met_online) {
            targets.push(i);
            assert(positions(targets@) =~= before.push(i as int));
        }
        i += 1;
    }
    targets
}

/// Whether captures are to begin anew: some device has come within reach.
pub fn any_device_needs_capture_rearm(
    prev: &Vec<AgentDevice>,
    next: &Vec<AgentDevice>,
    all: bool,
) -> (yes: bool)
    ensures
        yes == (arrivals(each(prev@), each(next@), all, next@.len() as int).len() > 0),
{
    let targets = reapply_targets(prev, next, all);
    assert(positions(targets@).len() == targets@.len());
    targets.len() > 0
}

/// What to write to now, and what to repeat later.
#[derive(Debug, PartialEq, Eq)]
pub struct ReapplyPlan {
    /// The devices to write to.
    pub targets: Vec<usize>,
    /// How often a write is to be repeated, by the device's key.
    pub followup: OrderedMap<String, u32>,
}

/// What to write to now, and what to repeat later. A device that was met for the
/// first time, or any after the system has slept, is written to again a few
/// times; one that only woke is not; one that went out of reach is forgotten.
pub fn plan_reapply(
    prev: &Vec<AgentDevice>,
    next: &Vec<AgentDevice>,
    followup: &OrderedMap<String, u32>,
    all: bool,
) -> (plan: ReapplyPlan)
    ensures
        positions(plan.targets@) == writes(
            each(prev@),
            each(next@),
            followup@,
            all,
            next@.len() as int,
        ),
        plan.followup@ == all_repeats(
            each(prev@),
            each(next@),
            followup@,
            all,
            next@.len() as int,
        ),
{
    let mut targets: Vec<usize> = Vec::new();
    let mut repeats: OrderedMap<String, u32> = OrderedMap::new();
    let mut i: usize = 0;
    assert(positions(targets@) =~= Seq::<int>::empty());
    while i < next.len()
        invariant
            i <= next@.len(),
            positions(targets@) == writes(each(prev@), each(next@), followup@, all, i as int),
            repeats@ == all_repeats(each(prev@), each(next@), followup@, all, i as int),
        decreases next@.len() - i,
    {
        let ghost before = positions(targets@);
        let device = &next[i];
        assert(each(next@)[i as int] == device@);
        if device.is_reachable() {
            let meeting = look_for(prev, device);
            let pending: Option<u32> = match followup.get(device.config_key.as_str()) {
                Some(count) => Some(*count),
                None => None,
            };
            if all || !meeting.met_online || pending.is_some() {
                targets.push(i);
                assert(positions(targets@) =~= before.push(i as int));
            }
            let left: u32 = if all || !meeting.met {
                VOLATILE_REAPPLY_CONFIRM_RETRIES
            } else {
                match pending {
                    Some(count) => if count > 0 {
                        count - 1
                    } else {
                        0
                    },
                    None => 0,
                }
            };
            if left > 0 {
                let _ = repeats.insert(device.config_key.replicate(), left);
            }
        }
        i += 1;
    }
    ReapplyPlan { targets, followup: repeats }
}

proof fn lemma_repeats_run_down(
    prev: Seq<AgentDeviceModel>,
    next: Seq<AgentDeviceModel>,
    repeats: Map<Seq<char>, u32>,
    n: int,
    key: Seq<char>,
)
    requires
        0 <= n <= next.len(),
        forall|i: int| 0 <= i < n ==> met(prev, #[trigger] next[i]),
        all_repeats(prev, next, repeats, false, n).contains_key(key),
    ensures
        repeats.contains_key(key),
        all_repeats(prev, next, repeats, false, n)[key] == repeats[key] - 1,
    decreases n,
{
    if n > 0 {
        let left = repeats_left(prev, next[n - 1], repeats, false);
        assert(met(prev, next[n - 1]));
        if !(left > 0 && next[n - 1].config_key == key) {
            lemma_repeats_run_down(prev, next, repeats, n - 1, key);
        }
    }
}

/// Repeats run out: where no device is new and the system has not slept, each
/// look leaves one less.
pub proof fn law_repeats_run_down(
    prev: Seq<AgentDeviceModel>,
    next: Seq<AgentDeviceModel>,
    repeats: Map<Seq<char>, u32>,
    key: Seq<char>,
)
    requires
        forall|i: int| 0 <= i < next.len() ==> met(prev, #[trigger] next[i]),
        all_repeats(prev, next, repeats, false, next.len() as int).contains_key(key),
    ensures
        repeats.contains_key(key),
        all_repeats(prev, next, repeats, false, next.len() as int)[key] == repeats[key] - 1,
{
    lemma_repeats_run_down(prev, next, repeats, next.len() as int, key);
}

proof fn lemma_nothing_arrives(
    prev: Seq<AgentDeviceModel>,
    next: Seq<AgentDeviceModel>,
    n: int,
)
    requires
        0 <= n <= next.len(),
        forall|i: int|
            0 <= i < next.len() && (#[trigger] next[i]).online ==> met_online(prev, next[i]),
    ensures
        arrivals(prev, next, false, n).len() == 0,
    decreases n,
{
    if n > 0 {
        lemma_nothing_arrives(prev, next, n - 1);
        if next[n - 1].online {
            assert(met_online(prev, next[n - 1]));
        }
    }
}

/// Nothing is written where nothing has changed.
pub proof fn law_a_steady_look_writes_nothing(devices: Seq<AgentDeviceModel>)
    ensures
        arrivals(devices, devices, false, devices.len() as int).len() == 0,
{
    assert forall|i: int|
        0 <= i < devices.len() && (#[trigger] devices[i]).online implies met_online(
        devices,
        devices[i],
    ) by {}
    lemma_nothing_arrives(devices, devices, devices.len() as int);
}

/// Settings are written to exactly the devices within reach that were not there
/// and online at the last look, or to all within reach after the system slept;
/// and to those that a write is to be repeated to. Captures begin anew where
/// there is one of the first.
pub proof fn law_settings_are_written_to_what_came_within_reach(
    prev: Seq<AgentDeviceModel>,
    next: Seq<AgentDeviceModel>,
    repeats: Map<Seq<char>, u32>,
    slept: bool,
    n: int,
    i: int,
)
    requires
        0 <= n <= next.len(),
    ensures
        ({
            let there = |device: AgentDeviceModel|
                exists|k: int|
                    0 <= k < prev.len() && (#[trigger] prev[k]).stable() == device.stable()
                        && prev[k].online;
            let came = |device: AgentDeviceModel|
                device.online && device.route is Some && (slept || !there(device));
            &&& arrivals(prev, next, slept, n).contains(i) <==> 0 <= i < n && came(next[i])
            &&& writes(prev, next, repeats, slept, n).contains(i) <==> 0 <= i < n && (came(
                next[i],
            ) || next[i].online && next[i].route is Some && repeats.contains_key(
                next[i].config_key,
            ))
        }),
    decreases n,
{
    if n > 0 {
        law_settings_are_written_to_what_came_within_reach(
            prev,
            next,
            repeats,
            slept,
            n - 1,
            i,
        );
        let a = arrivals(prev, next, slept, n - 1);
        let b = writes(prev, next, repeats, slept, n - 1);
        lemma_pushed(a, n - 1, i);
        lemma_pushed(b, n - 1, i);
    }
}

proof fn lemma_pushed(s: Seq<int>, a: int, i: int)
    ensures
        s.push(a).contains(i) <==> s.contains(i) || i == a,
{
    let more = s.push(a);
    assert(more[s.len() as int] == a);
    if s.contains(i) {
        assert(more[s.index_of(i)] == i);
    }
    if more.contains(i) && i != a {
        assert(s[more.index_of(i)] == i);
    }
}

/// A device that is new, or any after the system slept, is written to again a
/// few times; one that was known is written to one time less than was left; one
/// out of reach not at all.
pub proof fn law_how_often_a_write_is_repeated(
    prev: Seq<AgentDeviceModel>,
    device: AgentDeviceModel,
    repeats: Map<Seq<char>, u32>,
    slept: bool,
)
    ensures
        ({
            let known = exists|k: int|
                0 <= k < prev.len() && (#[trigger] prev[k]).stable() == device.stable();
            let within_reach = device.online && device.route is Some;
            let left = repeats_left(prev, device, repeats, slept);
            let before = if repeats.contains_key(device.config_key) {
                repeats[device.config_key] as int
            } else {
                0
            };
            &&& !within_reach ==> left == 0
            &&& within_reach && (slept || !known) ==> left == VOLATILE_REAPPLY_CONFIRM_RETRIES
            &&& within_reach && !slept && known && before > 0 ==> left == before - 1
            &&& within_reach && !slept && known && before == 0 ==> left == 0
        }),
{
}

/// A write to a device is to be repeated as often as is left for the last device
/// under its key that any is left for, and no other.
pub proof fn law_what_is_repeated(
    prev: Seq<AgentDeviceModel>,
    next: Seq<AgentDeviceModel>,
    repeats: Map<Seq<char>, u32>,
    slept: bool,
    n: int,
    key: Seq<char>,
)
    requires
        0 <= n <= next.len(),
    ensures
        ({
            let after = all_repeats(prev, next, repeats, slept, n);
            &&& after.contains_key(key) <==> exists|i: int|
                0 <= i < n && (#[trigger] next[i]).config_key == key && repeats_left(
                    prev,
                    next[i],
                    repeats,
                    slept,
                ) > 0
            &&& after.contains_key(key) ==> exists|i: int|
                0 <= i < n && (#[trigger] next[i]).config_key == key && after[key]
                    == repeats_left(prev, next[i], repeats, slept)
        }),
    decreases n,
{
    if n > 0 {
        law_what_is_repeated(prev, next, repeats, slept, n - 1, key);
        let before = all_repeats(prev, next, repeats, slept, n - 1);
        let last = next[n - 1];
        if before.contains_key(key) && !(last.config_key == key && repeats_left(
            prev,
            last,
            repeats,
            slept,
        ) > 0) {
            let i = choose|i: int|
                0 <= i < n - 1 && (#[trigger] next[i]).config_key == key && before[key]
                    == repeats_left(prev, next[i], repeats, slept);
            assert(next[i].config_key == key);
        }
    }
}

}
