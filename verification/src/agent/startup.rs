//! What happens before the agent opens any device for good.
//!
//! A touchpad that an interrupted session left in raw mode is put back first,
//! and nothing else is touched on the way.

use vstd::prelude::*;

use crate::agent::capture::{CaptureSpec, SpecModel};
use crate::agent::capture_plan::CaptureSessionMode;
use crate::device::{DeviceInventory, DeviceRoute, PairedDevice, RouteModel, DIRECT_DEVICE_INDEX};
use crate::device_order::{DeviceIdentity, IdentityModel};
use crate::ordered::{each, opt, Replicate, Same};

verus! {

/// A touchpad to put back.
#[derive(Debug, PartialEq, Eq)]
pub struct TouchpadRecoveryTarget {
    pub route: DeviceRoute,
    pub journal_id: String,
}

/// The model of a [`TouchpadRecoveryTarget`].
pub ghost struct RecoveryModel {
    pub route: RouteModel,
    pub journal_id: Seq<char>,
}

impl View for TouchpadRecoveryTarget {
    type V = RecoveryModel;

    open spec fn view(&self) -> RecoveryModel {
        RecoveryModel { route: self.route@, journal_id: self.journal_id@ }
    }
}

/// What a device is known by from one run to the next.
pub open spec fn identity_of(device: PairedDevice) -> Option<IdentityModel> {
    match device.model_info {
        Some(model) => Some(
            IdentityModel::of_parts(opt(model.serial_number), model.unit_id@),
        ),
        None => None,
    }
}

/// Whether a device is online and was found to have a raw touchpad.
pub open spec fn online_touchpad(device: PairedDevice) -> bool {
    device.online && (device.capabilities matches Some(capabilities)
        && capabilities.touchpad_raw_xy)
}

/// The touchpad to put back that a device may be.
pub open spec fn recoverable(inventory: DeviceInventory, device: PairedDevice) -> Option<
    RecoveryModel,
> {
    if !online_touchpad(device) {
        None
    } else {
        match (identity_of(device), inventory.route_to(device.slot)) {
            (Some(identity), Some(route)) => match identity.config_key() {
                Some(journal_id) => Some(RecoveryModel { route, journal_id }),
                None => None,
            },
            _ => None,
        }
    }
}

/// Whether a device is among those to put back already.
pub open spec fn matched(found: Seq<RecoveryModel>, journal_id: Seq<char>) -> bool {
    exists|i: int| 0 <= i < found.len() && (#[trigger] found[i]).journal_id == journal_id
}

/// The touchpads to put back with one more device looked at.
pub open spec fn with_device(
    found: Seq<RecoveryModel>,
    inventory: DeviceInventory,
    device: PairedDevice,
    pending: Seq<Seq<char>>,
) -> Seq<RecoveryModel> {
    match recoverable(inventory, device) {
        Some(target) => if pending.contains(target.journal_id) && !matched(
            found,
            target.journal_id,
        ) {
            found.push(target)
        } else {
            found
        },
        None => found,
    }
}

/// The touchpads to put back with several devices of one inventory looked at.
pub open spec fn with_devices(
    found: Seq<RecoveryModel>,
    inventory: DeviceInventory,
    devices: Seq<PairedDevice>,
    pending: Seq<Seq<char>>,
) -> Seq<RecoveryModel>
    decreases devices.len(),
{
    if devices.len() == 0 {
        found
    } else {
        with_device(
            with_devices(found, inventory, devices.drop_last(), pending),
            inventory,
            devices.last(),
            pending,
        )
    }
}

/// The touchpads to put back.
pub open spec fn recovery_targets(
    inventories: Seq<DeviceInventory>,
    pending: Seq<Seq<char>>,
) -> Seq<RecoveryModel>
    decreases inventories.len(),
{
    if inventories.len() == 0 {
        Seq::empty()
    } else {
        with_devices(
            recovery_targets(inventories.drop_last(), pending),
            inventories.last(),
            inventories.last().paired@,
            pending,
        )
    }
}

fn listed(names: &Vec<String>, name: &String) -> (yes: bool)
    ensures
        yes == each(names@).contains(name@),
{
    let mut i: usize = 0;
    while i < names.len()
        invariant
            i <= names@.len(),
            forall|j: int| 0 <= j < i ==> each(names@)[j] != name@,
        decreases names@.len() - i,
    {
        if names[i].same(name) {
            assert(each(names@)[i as int] == name@);
            return true;
        }
        i += 1;
    }
    false
}

fn already_matched(found: &Vec<TouchpadRecoveryTarget>, journal_id: &String) -> (yes: bool)
    ensures
        yes == matched(each(found@), journal_id@),
{
    let mut i: usize = 0;
    while i < found.len()
        invariant
            i <= found@.len(),
            forall|j: int| 0 <= j < i ==> (#[trigger] each(found@)[j]).journal_id != journal_id@,
        decreases found@.len() - i,
    {
        if found[i].journal_id.same(journal_id) {
            assert(each(found@)[i as int].journal_id == journal_id@);
            return true;
        }
        i += 1;
    }
    false
}

/// What a device is known by from one run to the next.
pub fn journal_identity(device: &PairedDevice) -> (identity: Option<DeviceIdentity>)
    ensures
        opt(identity) == identity_of(*device),
{
    match &device.model_info {
        Some(model) => {
            let serial = match &model.serial_number {
                Some(serial) => Some(serial.as_str()),
                None => None,
            };
            Some(DeviceIdentity::from_parts(serial, model.unit_id))
        },
        None => None,
    }
}

/// Whether a device is online and was found to have a raw touchpad.
pub fn is_online_touchpad(device: &PairedDevice) -> (yes: bool)
    ensures
        yes == online_touchpad(*device),
{
    match device.capabilities {
        Some(capabilities) => device.online && capabilities.touchpad_raw_xy,
        None => false,
    }
}

fn recovery_target(inventory: &DeviceInventory, device: &PairedDevice) -> (target: Option<
    TouchpadRecoveryTarget,
>)
    ensures
        opt(target) == recoverable(*inventory, *device),
{
    if !is_online_touchpad(device) {
        return None;
    }
    let journal_id = match journal_identity(device) {
        Some(identity) => match identity.config_key() {
            Some(key) => key,
            None => {
                return None;
            },
        },
        None => {
            return None;
        },
    };
    match DeviceRoute::device_route_for(inventory, device.slot) {
        Some(route) => Some(TouchpadRecoveryTarget { route, journal_id }),
        None => None,
    }
}

/// The touchpads to put back: those that are online, were found to have a raw
/// touchpad, and are on record.
pub fn touchpad_recovery_targets(
    inventories: &Vec<DeviceInventory>,
    pending: &Vec<String>,
) -> (targets: Vec<TouchpadRecoveryTarget>)
    ensures
        each(targets@) == recovery_targets(inventories@, each(pending@)),
{
    let ghost records = each(pending@);
    let mut targets: Vec<TouchpadRecoveryTarget> = Vec::new();
    let mut i: usize = 0;
    proof {
        assert(inventories@.take(0) =~= Seq::<DeviceInventory>::empty());
        assert(each(targets@) =~= Seq::<RecoveryModel>::empty());
    }
    while i < inventories.len()
        invariant
            records == each(pending@),
            i <= inventories@.len(),
            each(targets@) == recovery_targets(inventories@.take(i as int), records),
        decreases inventories@.len() - i,
    {
        let inventory = &inventories[i];
        let ghost start = each(targets@);
        let ghost devices = inventory.paired@;
        let mut j: usize = 0;
        assert(devices.take(0) =~= Seq::<PairedDevice>::empty());
        while j < inventory.paired.len()
            invariant
                records == each(pending@),
                devices == inventory.paired@,
                j <= devices.len(),
                each(targets@) == with_devices(start, *inventory, devices.take(j as int), records),
            decreases devices.len() - j,
        {
            let device = &inventory.paired[j];
            let ghost before = each(targets@);
            proof {
                assert(devices.take(j + 1).drop_last() =~= devices.take(j as int));
                assert(devices.take(j + 1).last() == *device);
            }
            if let Some(target) = recovery_target(inventory, device) {
                if listed(pending, &target.journal_id) && !already_matched(
                    &targets,
                    &target.journal_id,
                ) {
                    let ghost model = target@;
                    targets.push(target);
                    assert(each(targets@) =~= before.push(model));
                }
            }
            j += 1;
        }
        proof {
            assert(devices.take(j as int) =~= devices);
            assert(inventories@.take(i + 1).drop_last() =~= inventories@.take(i as int));
            assert(inventories@.take(i + 1).last() == *inventory);
        }
        i += 1;
    }
    assert(inventories@.take(i as int) =~= inventories@);
    targets
}

/// What keeps touchpads from being put back, or what to do next.
#[derive(Clone, Copy, Debug, PartialEq, Eq, Structural)]
pub enum RecoveryStep {
    /// The record cannot be read: leave it for later.
    JournalUnavailable,
    /// Nothing is on record.
    NothingPending,
    /// The system does not let devices be opened: leave it for later.
    AccessMissing,
    /// The receivers are in use: leave it for later.
    ReceiverBusy,
    /// Look for the devices and put them back.
    Recover,
}

/// What keeps touchpads from being put back, in the order it is looked at.
pub fn recovery_step(
    pending: Option<usize>,
    has_access: bool,
    lease_available: bool,
) -> (step: RecoveryStep)
    ensures
        step == match pending {
            None => RecoveryStep::JournalUnavailable,
            Some(count) => if count == 0 {
                RecoveryStep::NothingPending
            } else if !has_access {
                RecoveryStep::AccessMissing
            } else if !lease_available {
                RecoveryStep::ReceiverBusy
            } else {
                RecoveryStep::Recover
            },
        },
{
    match pending {
        None => RecoveryStep::JournalUnavailable,
        Some(count) => if count == 0 {
            RecoveryStep::NothingPending
        } else if !has_access {
            RecoveryStep::AccessMissing
        } else if !lease_available {
            RecoveryStep::ReceiverBusy
        } else {
            RecoveryStep::Recover
        },
    }
}

/// What a session that only puts a touchpad back is asked to capture: nothing.
pub fn recovery_spec(target: &TouchpadRecoveryTarget) -> (spec: CaptureSpec)
    ensures
        spec@ == (SpecModel {
            mode: CaptureSessionMode::TouchpadRecovery,
            capture_thumbwheel: false,
            divert_gesture_sources: Seq::empty(),
            divert_buttons: Seq::empty(),
            capture_touchpad: false,
            touchpad_journal_id: Some(target@.journal_id),
        }),
{
    CaptureSpec {
        mode: CaptureSessionMode::TouchpadRecovery,
        capture_thumbwheel: false,
        divert_gesture_sources: Vec::new(),
        divert_buttons: Vec::new(),
        capture_touchpad: false,
        touchpad_journal_id: Some(target.journal_id.replicate()),
    }
}

/// The touchpads that could be put back, in the order in which the devices of
/// one inventory are met.
pub open spec fn fit_devices(inventory: DeviceInventory, devices: Seq<PairedDevice>) -> Seq<
    RecoveryModel,
>
    decreases devices.len(),
{
    if devices.len() == 0 {
        Seq::empty()
    } else {
        let earlier = fit_devices(inventory, devices.drop_last());
        match recoverable(inventory, devices.last()) {
            Some(target) => earlier.push(target),
            None => earlier,
        }
    }
}

/// The touchpads that could be put back, in the order in which they are met.
pub open spec fn fit(inventories: Seq<DeviceInventory>) -> Seq<RecoveryModel>
    decreases inventories.len(),
{
    if inventories.len() == 0 {
        Seq::empty()
    } else {
        fit(inventories.drop_last()) + fit_devices(
            inventories.last(),
            inventories.last().paired@,
        )
    }
}

/// Whether `target` is the first of its device among `met`.
pub open spec fn is_first(met: Seq<RecoveryModel>, target: RecoveryModel) -> bool {
    exists|n: int| #[trigger] is_first_at(met, target, n)
}

/// Whether `target` stands at `n` in `met`, and nothing of its device before.
pub open spec fn is_first_at(met: Seq<RecoveryModel>, target: RecoveryModel, n: int) -> bool {
    &&& 0 <= n < met.len()
    &&& met[n] == target
    &&& forall|m: int| 0 <= m < n ==> (#[trigger] met[m]).journal_id != target.journal_id
}

/// Whether `found` holds, of what was met, the first of each device on record:
/// each once, and nothing else.
pub open spec fn exact_targets(
    found: Seq<RecoveryModel>,
    met: Seq<RecoveryModel>,
    pending: Seq<Seq<char>>,
) -> bool {
    &&& forall|journal_id: Seq<char>| #[trigger]
        matched(found, journal_id) <==> pending.contains(journal_id) && matched(met, journal_id)
    &&& forall|i: int| 0 <= i < found.len() ==> is_first(met, #[trigger] found[i])
    &&& forall|i: int, j: int|
        0 <= i < j < found.len() ==> (#[trigger] found[i]).journal_id != (
        #[trigger] found[j]).journal_id
}

proof fn lemma_one_more_met(met: Seq<RecoveryModel>, target: RecoveryModel)
    ensures
        forall|journal_id: Seq<char>| #[trigger]
            matched(met.push(target), journal_id) <==> matched(met, journal_id) || journal_id
                == target.journal_id,
        forall|first: RecoveryModel| #[trigger]
            is_first(met, first) ==> is_first(met.push(target), first),
{
    let more = met.push(target);
    assert forall|journal_id: Seq<char>| #[trigger]
        matched(more, journal_id) <==> matched(met, journal_id) || journal_id
            == target.journal_id by {
        if matched(met, journal_id) {
            let i = choose|i: int|
                0 <= i < met.len() && (#[trigger] met[i]).journal_id == journal_id;
            assert(more[i].journal_id == journal_id);
        }
        if journal_id == target.journal_id {
            assert(more[met.len() as int].journal_id == journal_id);
        }
        if matched(more, journal_id) {
            let i = choose|i: int|
                0 <= i < more.len() && (#[trigger] more[i]).journal_id == journal_id;
            if i < met.len() {
                assert(met[i].journal_id == journal_id);
            }
        }
    }
    assert forall|first: RecoveryModel| #[trigger] is_first(met, first) implies is_first(
        more,
        first,
    ) by {
        let n = choose|n: int| #[trigger] is_first_at(met, first, n);
        assert(is_first_at(more, first, n));
    }
}

proof fn lemma_exact_with_device(
    found: Seq<RecoveryModel>,
    met: Seq<RecoveryModel>,
    target: RecoveryModel,
    pending: Seq<Seq<char>>,
)
    requires
        exact_targets(found, met, pending),
    ensures
        ({
            let after = if pending.contains(target.journal_id) && !matched(
                found,
                target.journal_id,
            ) {
                found.push(target)
            } else {
                found
            };
            exact_targets(after, met.push(target), pending)
        }),
{
    let more = met.push(target);
    lemma_one_more_met(met, target);
    if pending.contains(target.journal_id) && !matched(found, target.journal_id) {
        let after = found.push(target);
        lemma_one_more_met(found, target);
        assert(is_first_at(more, target, met.len() as int)) by {
            assert forall|m: int| 0 <= m < met.len() implies (#[trigger] more[m]).journal_id
                != target.journal_id by {
                if met[m].journal_id == target.journal_id {
                    assert(matched(met, target.journal_id));
                }
            }
        }
        assert forall|i: int| 0 <= i < after.len() implies is_first(more, #[trigger] after[i]) by {
            if i < found.len() {
                assert(after[i] == found[i]);
            }
        }
        assert forall|i: int, j: int| 0 <= i < j < after.len() implies (
        #[trigger] after[i]).journal_id != (#[trigger] after[j]).journal_id by {
            assert(after[i] == found[i]);
            if j < found.len() {
                assert(after[j] == found[j]);
            }
        }
    }
}

proof fn lemma_exact_with_devices(
    found: Seq<RecoveryModel>,
    met: Seq<RecoveryModel>,
    inventory: DeviceInventory,
    devices: Seq<PairedDevice>,
    pending: Seq<Seq<char>>,
)
    requires
        exact_targets(found, met, pending),
    ensures
        exact_targets(
            with_devices(found, inventory, devices, pending),
            met + fit_devices(inventory, devices),
            pending,
        ),
    decreases devices.len(),
{
    if devices.len() == 0 {
        assert(met + fit_devices(inventory, devices) =~= met);
    } else {
        let fewer = devices.drop_last();
        lemma_exact_with_devices(found, met, inventory, fewer, pending);
        let earlier = met + fit_devices(inventory, fewer);
        if let Some(target) = recoverable(inventory, devices.last()) {
            lemma_exact_with_device(
                with_devices(found, inventory, fewer, pending),
                earlier,
                target,
                pending,
            );
            assert(met + fit_devices(inventory, devices) =~= earlier.push(target));
        }
    }
}

/// A touchpad is put back if and only if it is on record and some device that
/// could be it is there; each once, however often it shows up, and on the route
/// of the first such device.
pub proof fn law_the_recorded_touchpads_are_put_back(
    inventories: Seq<DeviceInventory>,
    pending: Seq<Seq<char>>,
)
    ensures
        exact_targets(recovery_targets(inventories, pending), fit(inventories), pending),
        pending.len() == 0 ==> recovery_targets(inventories, pending).len() == 0,
    decreases inventories.len(),
{
    if inventories.len() > 0 {
        law_the_recorded_touchpads_are_put_back(inventories.drop_last(), pending);
        lemma_exact_with_devices(
            recovery_targets(inventories.drop_last(), pending),
            fit(inventories.drop_last()),
            inventories.last(),
            inventories.last().paired@,
            pending,
        );
    }
    let targets = recovery_targets(inventories, pending);
    if pending.len() == 0 && targets.len() > 0 {
        assert(matched(targets, targets[0].journal_id));
    }
}

/// A touchpad can be put back where it is online and was found to have a raw
/// touchpad, where its serial number or its unit id tells it from others, and
/// where there is a way to it. It is put back by that way, and known by its own
/// identity.
pub proof fn law_which_touchpads_can_be_put_back(inventory: DeviceInventory, device: PairedDevice)
    ensures
        recoverable(inventory, device) is Some <==> {
            &&& device.online
            &&& device.capabilities is Some && device.capabilities.unwrap().touchpad_raw_xy
            &&& device.model_info is Some
            &&& {
                let model = device.model_info.unwrap();
                ||| model.serial_number is Some && model.serial_number.unwrap()@.len() > 0
                ||| exists|i: int| 0 <= i < 4 && #[trigger] model.unit_id@[i] != 0
            }
            &&& device.slot == DIRECT_DEVICE_INDEX || inventory.receiver.unique_id is Some
        },
        recoverable(inventory, device) matches Some(target) ==> inventory.route_to(device.slot)
            == Some(target.route) && target.journal_id == identity_of(device).unwrap().key(),
{
    if let Some(model) = device.model_info {
        let id = model.unit_id@;
        if id[0] != 0 || id[1] != 0 || id[2] != 0 || id[3] != 0 {
            assert(exists|i: int| 0 <= i < 4 && #[trigger] id[i] != 0);
        }
    }
}

}
