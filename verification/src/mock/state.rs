//! What the scripted agent holds: what its devices were told, what was paired
//! with its receiver, and where pairing stands.

use vstd::prelude::*;
use vstd::string::StrSliceExecFns;

use crate::device::{
    BatteryInfo, BatteryLevel, BatteryStatus, Capabilities, DeviceInventory, DeviceKind,
    DeviceRoute, InventoryModel, PairedDevice, PairedModel, RouteModel, DIRECT_DEVICE_INDEX,
};
use crate::hid::{
    is_nearest, Dpi, DpiCapabilities, SmartShift, SmartShiftAutoDisengage, SmartShiftThreshold,
    TunableTorque, WheelMode,
};
use crate::mock::inventory::{
    battery_at, bolt_inventory, bolt_model, device_index, direct_inventory, direct_model,
    draining_battery, light_route_model, settings_key, DIRECT_PID, KEYBOARD_SLOT,
    LOGITECH_VENDOR_ID, MOUSE_SLOT, OFFLINE_SLOT, RECEIVER_UID, TOUCHPAD_SLOT,
};
use crate::ordered::{each, opt, same_each, KeyOrder, OrderedKey, OrderedMap, Replicate, Same};

verus! {

/// The feature that sets the resolution.
pub const DPI_FEATURE: u16 = 0x2201;

/// The feature that sets the lighting.
pub const LIGHTING_FEATURE: u16 = 0x8070;

/// The feature that sets the wheel.
pub const SMARTSHIFT_FEATURE: u16 = 0x2110;

/// The wireless product of the device that pairing finds.
pub const CANDIDATE_WPID: u16 = 0x408a;

/// How long a search runs before it finds a device, in milliseconds.
pub const DISCOVERY_DELAY_MS: u64 = 1500;

/// How long after a device was chosen its passkey is asked for, in milliseconds.
pub const PASSKEY_DELAY_MS: u64 = 800;

/// How long the passkey takes to type, in milliseconds.
pub const PASSKEY_TYPING_DELAY_MS: u64 = 3000;

impl OrderedKey for u8 {
    type Probe = u8;

    open spec fn before(a: u8, b: u8) -> bool {
        a < b
    }

    proof fn before_irreflexive(a: u8) {
    }

    proof fn before_transitive(a: u8, b: u8, c: u8) {
    }

    proof fn before_total(a: u8, b: u8) {
    }

    fn order_against(&self, probe: &u8) -> (order: KeyOrder) {
        if *self < *probe {
            KeyOrder::Before
        } else if *self == *probe {
            KeyOrder::Same
        } else {
            KeyOrder::After
        }
    }

    fn as_probe(&self) -> (probe: &u8) {
        self
    }
}

/// The resolution of a device, and those it takes.
#[derive(Debug, PartialEq, Eq)]
pub struct DpiInfo {
    pub current: Dpi,
    pub capabilities: DpiCapabilities,
}

/// The model of a [`DpiInfo`].
pub ghost struct DpiModel {
    pub current: u16,
    pub capabilities: Seq<u16>,
}

impl View for DpiInfo {
    type V = DpiModel;

    open spec fn view(&self) -> DpiModel {
        DpiModel { current: self.current.value, capabilities: self.capabilities@ }
    }
}

impl Replicate for DpiInfo {
    fn replicate(&self) -> (copy: Self) {
        DpiInfo { current: self.current, capabilities: self.capabilities.duplicate() }
    }
}

/// What a device was told, as far as it can be told anything.
#[derive(Debug, PartialEq, Eq)]
pub struct DeviceSettings {
    pub dpi: Option<DpiInfo>,
    pub smartshift: Option<SmartShift>,
    pub lighting: bool,
}

/// The model of [`DeviceSettings`].
pub ghost struct SettingsModel {
    pub dpi: Option<DpiModel>,
    pub smartshift: Option<SmartShift>,
    pub lighting: bool,
}

impl View for DeviceSettings {
    type V = SettingsModel;

    open spec fn view(&self) -> SettingsModel {
        SettingsModel {
            dpi: opt(self.dpi),
            smartshift: self.smartshift,
            lighting: self.lighting,
        }
    }
}

impl SettingsModel {
    /// Nothing can be told.
    pub open spec fn none() -> SettingsModel {
        SettingsModel { dpi: None, smartshift: None, lighting: false }
    }
}

impl DeviceSettings {
    /// A device that can be told nothing.
    pub fn unsupported() -> (settings: DeviceSettings)
        ensures
            settings@ == SettingsModel::none(),
    {
        DeviceSettings { dpi: None, smartshift: None, lighting: false }
    }
}

/// Why a device was not told, or did not answer.
#[derive(Clone, Copy, Debug, PartialEq, Eq, Structural)]
pub enum WriteError {
    /// There is no such device.
    DeviceNotFound,
    /// It has no such feature.
    FeatureUnsupported { feature_hex: u16 },
}

/// A device that a search found.
#[derive(Debug, PartialEq, Eq)]
pub struct FoundDevice {
    pub address: [u8; 6],
    pub name: String,
}

/// The model of a [`FoundDevice`].
#[verifier::ext_equal]
pub ghost struct FoundModel {
    pub address: Seq<u8>,
    pub name: Seq<char>,
}

impl View for FoundDevice {
    type V = FoundModel;

    open spec fn view(&self) -> FoundModel {
        FoundModel { address: self.address@, name: self.name@ }
    }
}

impl Replicate for FoundDevice {
    fn replicate(&self) -> (copy: Self) {
        FoundDevice { address: self.address, name: self.name.replicate() }
    }
}

impl Same for FoundDevice {
    fn same(&self, other: &Self) -> (same: bool) {
        same_address(&self.address, &other.address) && self.name.same(&other.name)
    }
}

fn same_address(a: &[u8; 6], b: &[u8; 6]) -> (same: bool)
    ensures
        same == (a@ == b@),
{
    let same = a[0] == b[0] && a[1] == b[1] && a[2] == b[2] && a[3] == b[3] && a[4] == b[4] && a[5]
        == b[5];
    proof {
        if same {
            assert(a@ =~= b@);
        }
    }
    same
}

/// The one device that a search finds.
pub open spec fn candidate() -> FoundModel {
    FoundModel { address: seq![0xe0, 0x15, 0x27, 0x42, 0x91, 0x3a], name: "ERGO K860"@ }
}

fn found_candidate() -> (found: FoundDevice)
    ensures
        found@ == candidate(),
{
    let found = FoundDevice {
        address: [0xe0, 0x15, 0x27, 0x42, 0x91, 0x3a],
        name: "ERGO K860".to_owned(),
    };
    assert(found@.address =~= candidate().address);
    found
}

/// How a passkey is entered.
#[derive(Debug, PartialEq, Eq)]
pub enum PasskeyMethod {
    /// By typing it on the device.
    Keyboard(String),
}

/// Where pairing stands.
#[derive(Debug, PartialEq, Eq)]
pub enum PairingPhase {
    Searching,
    Found(Vec<FoundDevice>),
    Pairing,
    Passkey(PasskeyMethod),
    Paired { slot: u8 },
}

/// The model of a [`PairingPhase`].
#[verifier::ext_equal]
pub ghost enum PhaseModel {
    Searching,
    Found(Seq<FoundModel>),
    Pairing,
    Passkey(Seq<char>),
    Paired { slot: u8 },
}

impl View for PasskeyMethod {
    type V = Seq<char>;

    open spec fn view(&self) -> Seq<char> {
        match self {
            PasskeyMethod::Keyboard(digits) => digits@,
        }
    }
}

impl View for PairingPhase {
    type V = PhaseModel;

    open spec fn view(&self) -> PhaseModel {
        match self {
            PairingPhase::Searching => PhaseModel::Searching,
            PairingPhase::Found(found) => PhaseModel::Found(each(found@)),
            PairingPhase::Pairing => PhaseModel::Pairing,
            PairingPhase::Passkey(method) => PhaseModel::Passkey(method@),
            PairingPhase::Paired { slot } => PhaseModel::Paired { slot: *slot },
        }
    }
}

impl Replicate for PairingPhase {
    fn replicate(&self) -> (copy: Self) {
        match self {
            PairingPhase::Searching => PairingPhase::Searching,
            PairingPhase::Found(found) => PairingPhase::Found(
                crate::ordered::replicate_each(found),
            ),
            PairingPhase::Pairing => PairingPhase::Pairing,
            PairingPhase::Passkey(PasskeyMethod::Keyboard(digits)) => PairingPhase::Passkey(
                PasskeyMethod::Keyboard(digits.replicate()),
            ),
            PairingPhase::Paired { slot } => PairingPhase::Paired { slot: *slot },
        }
    }
}

impl Same for PairingPhase {
    fn same(&self, other: &Self) -> (same: bool) {
        match (self, other) {
            (PairingPhase::Searching, PairingPhase::Searching) => true,
            (PairingPhase::Found(a), PairingPhase::Found(b)) => same_each(a, b),
            (PairingPhase::Pairing, PairingPhase::Pairing) => true,
            (
                PairingPhase::Passkey(PasskeyMethod::Keyboard(a)),
                PairingPhase::Passkey(PasskeyMethod::Keyboard(b)),
            ) => a.same(b),
            (PairingPhase::Paired { slot: a }, PairingPhase::Paired { slot: b }) => *a == *b,
            _ => false,
        }
    }
}

/// What a session of pairing tells whoever started it.
#[derive(Debug, PartialEq, Eq)]
pub enum PairingUpdate {
    Searching,
    DeviceFound(FoundDevice),
    Passkey(PasskeyMethod),
    Paired { slot: u8 },
    /// It was called off.
    Cancelled,
}

/// The model of a [`PairingUpdate`].
#[verifier::ext_equal]
pub ghost enum UpdateModel {
    Searching,
    DeviceFound(FoundModel),
    Passkey(Seq<char>),
    Paired { slot: u8 },
    Cancelled,
}

impl View for PairingUpdate {
    type V = UpdateModel;

    open spec fn view(&self) -> UpdateModel {
        match self {
            PairingUpdate::Searching => UpdateModel::Searching,
            PairingUpdate::DeviceFound(found) => UpdateModel::DeviceFound(found@),
            PairingUpdate::Passkey(method) => UpdateModel::Passkey(method@),
            PairingUpdate::Paired { slot } => UpdateModel::Paired { slot: *slot },
            PairingUpdate::Cancelled => UpdateModel::Cancelled,
        }
    }
}

/// Why a pairing command was refused.
#[derive(Clone, Copy, Debug, PartialEq, Eq, Structural)]
pub enum PairingCommandError {
    /// A session is live already.
    AlreadyActive,
    /// None is.
    NoActiveSession,
    /// The device was not found by this session.
    UnknownDevice,
}

/// A live session of pairing.
#[derive(Debug, PartialEq, Eq)]
pub struct PairingSession {
    pub id: u64,
    pub discovered: Option<FoundDevice>,
}

/// The model of a [`PairingSession`].
#[verifier::ext_equal]
pub ghost struct PairingModel {
    pub id: u64,
    pub discovered: Option<FoundModel>,
}

impl View for PairingSession {
    type V = PairingModel;

    open spec fn view(&self) -> PairingModel {
        PairingModel { id: self.id, discovered: opt(self.discovered) }
    }
}

/// What the scripted agent holds.
#[derive(Debug, PartialEq, Eq)]
pub struct State {
    /// What pairing added to the receiver.
    pub paired_extra: Vec<PairedDevice>,
    /// The slot that pairing gives next.
    pub next_slot: u8,
    /// What the devices were told, by their index.
    pub settings: OrderedMap<u8, DeviceSettings>,
    pub pairing: Option<PairingSession>,
    /// Where pairing stands; it outlives the session, as its result.
    pub phase: Option<PairingPhase>,
    pub next_pairing_id: u64,
}

/// The model of a [`State`].
#[verifier::ext_equal]
pub ghost struct StateModel {
    pub paired_extra: Seq<PairedModel>,
    pub next_slot: u8,
    pub settings: Map<u8, SettingsModel>,
    pub pairing: Option<PairingModel>,
    pub phase: Option<PhaseModel>,
    pub next_pairing_id: u64,
}

impl View for State {
    type V = StateModel;

    open spec fn view(&self) -> StateModel {
        StateModel {
            paired_extra: each(self.paired_extra@),
            next_slot: self.next_slot,
            settings: self.settings@,
            pairing: opt(self.pairing),
            phase: opt(self.phase),
            next_pairing_id: self.next_pairing_id,
        }
    }
}

/// The numbers from `low` up to `high`, so far apart.
pub open spec fn stepped(low: int, high: int, step: int) -> Seq<u16>
    recommends
        step > 0,
{
    Seq::new(((high - low) / step + 1) as nat, |i: int| (low + i * step) as u16)
}

fn resolutions(low: u16, high: u16, step: u16) -> (values: Vec<u16>)
    requires
        0 < step,
        low <= high,
        high + step <= 0xffff,
    ensures
        values@ == stepped(low as int, high as int, step as int),
        values@.len() > 0,
{
    let ghost all = stepped(low as int, high as int, step as int);
    let count: u16 = (high - low) / step + 1;
    let mut values: Vec<u16> = Vec::new();
    let mut next: u16 = low;
    let mut i: u16 = 0;
    while i < count
        invariant
            all == stepped(low as int, high as int, step as int),
            count == (high - low) / (step as int) + 1,
            0 < step,
            low <= high,
            high + step <= 0xffff,
            i <= count,
            values@.len() == i,
            next == low + i * step,
            forall|j: int| 0 <= j < i ==> values@[j] == #[trigger] all[j],
        decreases count - i,
    {
        proof {
            assert(i * step <= high - low) by (nonlinear_arith)
                requires
                    i <= (high - low) / (step as int),
                    0 < step,
                    0 <= i,
                    low <= high,
            ;
            assert((i + 1) * step == i * step + step) by (nonlinear_arith);
        }
        values.push(next);
        next = next + step;
        i = i + 1;
    }
    assert(values@ =~= all);
    values
}

impl StateModel {
    /// As it is at first.
    pub open spec fn initial(auto_disengage: SmartShiftThreshold) -> StateModel {
        StateModel {
            paired_extra: Seq::empty(),
            next_slot: (TOUCHPAD_SLOT + 1) as u8,
            settings: map![
                MOUSE_SLOT => SettingsModel {
                    dpi: Some(DpiModel { current: 1600, capabilities: stepped(200, 8000, 50) }),
                    smartshift: Some(
                        SmartShift {
                            mode: WheelMode::Ratchet,
                            auto_disengage: SmartShiftAutoDisengage::Threshold(auto_disengage),
                            tunable_torque: Some(TunableTorque { value: 50 }),
                        },
                    ),
                    lighting: false,
                },
                OFFLINE_SLOT => SettingsModel::none(),
                KEYBOARD_SLOT => SettingsModel { dpi: None, smartshift: None, lighting: true },
                TOUCHPAD_SLOT => SettingsModel::none(),
                DIRECT_DEVICE_INDEX => SettingsModel {
                    dpi: Some(DpiModel { current: 1000, capabilities: stepped(400, 4000, 100) }),
                    smartshift: None,
                    lighting: false,
                },
            ],
            pairing: None,
            phase: None,
            next_pairing_id: 0,
        }
    }

    /// What the device at the end of a route was told.
    pub open spec fn settings_at(self, route: RouteModel) -> Option<SettingsModel> {
        match device_index(route) {
            Some(index) => if self.settings.contains_key(index) {
                Some(self.settings[index])
            } else {
                None
            },
            None => None,
        }
    }

    /// With other settings for the device at the end of a route.
    pub open spec fn with_settings(self, route: RouteModel, settings: SettingsModel) -> StateModel {
        StateModel {
            settings: self.settings.insert(device_index(route).unwrap(), settings),
            ..self
        }
    }

    /// Whether a session is the live one.
    pub open spec fn live(self, id: u64) -> bool {
        self.pairing matches Some(session) && session.id == id
    }

    /// With a session begun.
    pub open spec fn with_pairing_begun(self) -> StateModel {
        StateModel {
            pairing: Some(PairingModel { id: self.next_pairing_id, discovered: None }),
            next_pairing_id: (self.next_pairing_id + 1) as u64,
            ..self
        }
    }

    /// With a device paired.
    pub open spec fn with_paired(self, name: Seq<char>) -> StateModel {
        StateModel {
            paired_extra: self.paired_extra.push(paired_keyboard(self.next_slot, name)),
            next_slot: if self.next_slot == u8::MAX {
                u8::MAX
            } else {
                (self.next_slot + 1) as u8
            },
            settings: self.settings.insert(self.next_slot, SettingsModel::none()),
            ..self
        }
    }

    /// The devices after so many seconds.
    pub open spec fn inventory(self, seconds: u64) -> Seq<InventoryModel> {
        seq![
            InventoryModel {
                paired: bolt_model(battery_at(seconds)).paired + self.paired_extra,
                ..bolt_model(battery_at(seconds))
            },
            direct_model(),
        ]
    }
}

/// What pairing adds.
pub open spec fn paired_keyboard(slot: u8, name: Seq<char>) -> PairedModel {
    PairedModel {
        slot,
        codename: Some(name),
        wpid: Some(CANDIDATE_WPID),
        kind: DeviceKind::Keyboard,
        online: true,
        battery: Some(
            BatteryInfo {
                percentage: 90,
                level: BatteryLevel::Full,
                status: BatteryStatus::Discharging,
            },
        ),
        model_info: None,
        capabilities: Some(
            Capabilities {
                buttons: false,
                pointer: false,
                lighting: false,
                scroll_inversion: false,
                hires_wheel: false,
                thumbwheel: false,
                haptic_feedback: false,
                haptic_panel: false,
                touchpad_raw_xy: false,
            },
        ),
    }
}

impl State {
    /// As it is at first.
    pub fn new(auto_disengage: SmartShiftThreshold) -> (state: State)
        ensures
            state@ == StateModel::initial(auto_disengage),
    {
        let mut settings: OrderedMap<u8, DeviceSettings> = OrderedMap::new();
        let mouse_dpi = match DpiCapabilities::new(resolutions(200, 8000, 50)) {
            Ok(capabilities) => Some(DpiInfo { current: Dpi { value: 1600 }, capabilities }),
            Err(_) => None,
        };
        let _ = settings.insert(
            MOUSE_SLOT,
            DeviceSettings {
                dpi: mouse_dpi,
                smartshift: Some(
                    SmartShift {
                        mode: WheelMode::Ratchet,
                        auto_disengage: SmartShiftAutoDisengage::Threshold(auto_disengage),
                        tunable_torque: Some(TunableTorque { value: 50 }),
                    },
                ),
                lighting: false,
            },
        );
        let _ = settings.insert(OFFLINE_SLOT, DeviceSettings::unsupported());
        let _ = settings.insert(
            KEYBOARD_SLOT,
            DeviceSettings { dpi: None, smartshift: None, lighting: true },
        );
        let _ = settings.insert(TOUCHPAD_SLOT, DeviceSettings::unsupported());
        let direct_dpi = match DpiCapabilities::new(resolutions(400, 4000, 100)) {
            Ok(capabilities) => Some(DpiInfo { current: Dpi { value: 1000 }, capabilities }),
            Err(_) => None,
        };
        let _ = settings.insert(
            DIRECT_DEVICE_INDEX,
            DeviceSettings { dpi: direct_dpi, smartshift: None, lighting: false },
        );
        let paired_extra: Vec<PairedDevice> = Vec::new();
        proof {
            assert(settings@ =~= StateModel::initial(auto_disengage).settings);
            assert(each(paired_extra@) =~= Seq::<PairedModel>::empty());
        }
        State {
            paired_extra,
            next_slot: TOUCHPAD_SLOT + 1,
            settings,
            pairing: None,
            phase: None,
            next_pairing_id: 0,
        }
    }

    /// Say where pairing stands.
    pub fn set_phase(&mut self, phase: PairingPhase)
        ensures
            final(self)@ == (StateModel { phase: Some(phase@), ..old(self)@ }),
    {
        self.phase = Some(phase);
    }

    /// Begin a session of pairing, in place of any other.
    pub fn begin_pairing(&mut self) -> (id: u64)
        requires
            old(self).next_pairing_id < u64::MAX,
        ensures
            id == old(self).next_pairing_id,
            final(self)@ == old(self)@.with_pairing_begun(),
    {
        let id: u64 = self.next_pairing_id;
        self.next_pairing_id = id + 1;
        self.pairing = Some(PairingSession { id, discovered: None });
        id
    }

    /// Whether a session is the live one.
    pub fn pairing_session(&self, id: u64) -> (live: bool)
        ensures
            live == self@.live(id),
    {
        match &self.pairing {
            Some(session) => session.id == id,
            None => false,
        }
    }

    /// End a session, where it is the live one.
    pub fn end_pairing(&mut self, id: u64) -> (ended: bool)
        ensures
            ended == old(self)@.live(id),
            final(self)@ == (if ended {
                StateModel { pairing: None, ..old(self)@ }
            } else {
                old(self)@
            }),
    {
        if self.pairing_session(id) {
            self.pairing = None;
            true
        } else {
            false
        }
    }

    /// The devices after so many seconds.
    pub fn render_inventory(&self, seconds: u64) -> (inventory: Vec<DeviceInventory>)
        ensures
            each(inventory@) == self@.inventory(seconds),
    {
        let mut bolt = bolt_inventory(draining_battery(seconds));
        let ghost scripted = each(bolt.paired@);
        let mut i: usize = 0;
        proof {
            assert(each(bolt.paired@) =~= scripted + self@.paired_extra.take(0));
        }
        while i < self.paired_extra.len()
            invariant
                i <= self.paired_extra@.len(),
                bolt@.receiver == bolt_model(battery_at(seconds)).receiver,
                each(bolt.paired@) == scripted + self@.paired_extra.take(i as int),
            decreases self.paired_extra@.len() - i,
        {
            let ghost before = each(bolt.paired@);
            bolt.paired.push(self.paired_extra[i].replicate());
            proof {
                assert(each(bolt.paired@) =~= before.push(self.paired_extra@[i as int]@));
                assert(self@.paired_extra.take(i + 1) =~= self@.paired_extra.take(i as int).push(
                    self.paired_extra@[i as int]@,
                ));
                assert(each(bolt.paired@) =~= scripted + self@.paired_extra.take(i + 1));
            }
            i += 1;
        }
        assert(self@.paired_extra.take(i as int) =~= self@.paired_extra);
        let mut inventory: Vec<DeviceInventory> = Vec::new();
        inventory.push(bolt);
        inventory.push(direct_inventory());
        assert(each(inventory@) =~= self@.inventory(seconds));
        inventory
    }

    /// What the device at the end of a route was told.
    pub fn settings_for(&self, route: &DeviceRoute) -> (result: Result<
        &DeviceSettings,
        WriteError,
    >)
        ensures
            match result {
                Ok(settings) => self@.settings_at(route@) == Some(settings@),
                Err(error) => self@.settings_at(route@) is None && error
                    == WriteError::DeviceNotFound,
            },
    {
        match settings_key(route) {
            Some(index) => match self.settings.get(&index) {
                Some(settings) => Ok(settings),
                None => Err(WriteError::DeviceNotFound),
            },
            None => Err(WriteError::DeviceNotFound),
        }
    }

    /// What the device at the end of a route was told, to be changed.
    pub fn settings_for_mut(&mut self, route: &DeviceRoute) -> (result: Result<
        &mut DeviceSettings,
        WriteError,
    >)
        ensures
            match result {
                Ok(settings) => {
                    &&& old(self)@.settings_at(route@) == Some(settings@)
                    &&& final(self)@ == old(self)@.with_settings(route@, final(settings)@)
                },
                Err(error) => {
                    &&& old(self)@.settings_at(route@) is None
                    &&& error == WriteError::DeviceNotFound
                    &&& final(self)@ == old(self)@
                },
            },
    {
        match settings_key(route) {
            Some(index) => match self.settings.get_mut(&index) {
                Some(settings) => Ok(settings),
                None => Err(WriteError::DeviceNotFound),
            },
            None => Err(WriteError::DeviceNotFound),
        }
    }

    /// Set a resolution: the nearest of those that the device takes.
    pub fn set_dpi(&mut self, route: &DeviceRoute, dpi: Dpi) -> (result: Result<(), WriteError>)
        ensures
            match old(self)@.settings_at(route@) {
                None => result == Err::<(), _>(WriteError::DeviceNotFound) && final(self)@ == old(
                    self,
                )@,
                Some(settings) => match settings.dpi {
                    None => result == Err::<(), _>(
                        WriteError::FeatureUnsupported { feature_hex: DPI_FEATURE },
                    ) && final(self)@ == old(self)@,
                    Some(info) => result is Ok && exists|i: int| #[trigger]
                        is_nearest(info.capabilities, dpi.value, i) && final(self)@ == old(
                            self,
                        )@.with_settings(
                            route@,
                            SettingsModel {
                                dpi: Some(DpiModel { current: info.capabilities[i], ..info }),
                                ..settings
                            },
                        ),
                },
            },
    {
        let ghost before = self@;
        match self.settings_for_mut(route) {
            Err(error) => Err(error),
            Ok(settings) => {
                let ghost told = settings@;
                let nearest = match &settings.dpi {
                    None => {
                        proof {
                            assert(before.with_settings(route@, told).settings =~= before.settings);
                        }
                        return Err(WriteError::FeatureUnsupported { feature_hex: DPI_FEATURE });
                    },
                    Some(info) => info.capabilities.nearest(dpi),
                };
                let ghost info = told.dpi.unwrap();
                let ghost i = choose|i: int| #[trigger]
                    is_nearest(info.capabilities, dpi.value, i) && nearest.value
                        == info.capabilities[i];
                if let Some(info) = &mut settings.dpi {
                    info.current = nearest;
                }
                proof {
                    assert(settings@ == (SettingsModel {
                        dpi: Some(DpiModel { current: info.capabilities[i], ..info }),
                        ..told
                    }));
                    assert(is_nearest(info.capabilities, dpi.value, i));
                }
                Ok(())
            },
        }
    }

    /// Whether a device can be told about lighting.
    pub fn set_lighting(&self, route: &DeviceRoute) -> (result: Result<(), WriteError>)
        ensures
            result == (match self@.settings_at(route@) {
                None => Err(WriteError::DeviceNotFound),
                Some(settings) => if settings.lighting {
                    Ok(())
                } else {
                    Err(WriteError::FeatureUnsupported { feature_hex: LIGHTING_FEATURE })
                },
            }),
    {
        match self.settings_for(route) {
            Err(error) => Err(error),
            Ok(settings) => {
                if settings.lighting {
                    Ok(())
                } else {
                    Err(WriteError::FeatureUnsupported { feature_hex: LIGHTING_FEATURE })
                }
            },
        }
    }

    /// Set the wheel.
    pub fn set_smartshift(&mut self, route: &DeviceRoute, status: SmartShift) -> (result: Result<
        (),
        WriteError,
    >)
        ensures
            match old(self)@.settings_at(route@) {
                None => result == Err::<(), _>(WriteError::DeviceNotFound) && final(self)@ == old(
                    self,
                )@,
                Some(settings) => if settings.smartshift is None {
                    result == Err::<(), _>(
                        WriteError::FeatureUnsupported { feature_hex: SMARTSHIFT_FEATURE },
                    ) && final(self)@ == old(self)@
                } else {
                    result is Ok && final(self)@ == old(self)@.with_settings(
                        route@,
                        SettingsModel { smartshift: Some(status), ..settings },
                    )
                },
            },
    {
        let ghost before = self@;
        match self.settings_for_mut(route) {
            Err(error) => Err(error),
            Ok(settings) => {
                let ghost told = settings@;
                if settings.smartshift.is_some() {
                    settings.smartshift = Some(status);
                    Ok(())
                } else {
                    proof {
                        assert(before.with_settings(route@, told).settings =~= before.settings);
                    }
                    Err(WriteError::FeatureUnsupported { feature_hex: SMARTSHIFT_FEATURE })
                }
            },
        }
    }

    /// The resolution of a device, and those it takes.
    pub fn read_dpi(&self, route: &DeviceRoute) -> (result: Result<DpiInfo, WriteError>)
        ensures
            match self@.settings_at(route@) {
                None => result == Err::<DpiInfo, _>(WriteError::DeviceNotFound),
                Some(settings) => match settings.dpi {
                    None => result == Err::<DpiInfo, _>(
                        WriteError::FeatureUnsupported { feature_hex: DPI_FEATURE },
                    ),
                    Some(info) => result matches Ok(read) && read@ == info,
                },
            },
    {
        match self.settings_for(route) {
            Err(error) => Err(error),
            Ok(settings) => match &settings.dpi {
                Some(info) => Ok(info.replicate()),
                None => Err(WriteError::FeatureUnsupported { feature_hex: DPI_FEATURE }),
            },
        }
    }

    /// How the wheel is set.
    pub fn read_smartshift(&self, route: &DeviceRoute) -> (result: Result<SmartShift, WriteError>)
        ensures
            result == (match self@.settings_at(route@) {
                None => Err(WriteError::DeviceNotFound),
                Some(settings) => match settings.smartshift {
                    None => Err(
                        WriteError::FeatureUnsupported { feature_hex: SMARTSHIFT_FEATURE },
                    ),
                    Some(status) => Ok(status),
                },
            }),
    {
        match self.settings_for(route) {
            Err(error) => Err(error),
            Ok(settings) => match settings.smartshift {
                Some(status) => Ok(status),
                None => Err(WriteError::FeatureUnsupported { feature_hex: SMARTSHIFT_FEATURE }),
            },
        }
    }

    /// Pair a keyboard of this name, and give its slot.
    pub fn pair_scripted(&mut self, name: &str) -> (slot: u8)
        ensures
            slot == old(self).next_slot,
            final(self)@ == old(self)@.with_paired(name@),
    {
        let ghost before = each(self.paired_extra@);
        let slot: u8 = self.next_slot;
        if self.next_slot < u8::MAX {
            self.next_slot = self.next_slot + 1;
        }
        let device = PairedDevice {
            slot,
            codename: Some(name.to_owned()),
            wpid: Some(CANDIDATE_WPID),
            kind: DeviceKind::Keyboard,
            online: true,
            battery: Some(
                BatteryInfo {
                    percentage: 90,
                    level: BatteryLevel::Full,
                    status: BatteryStatus::Discharging,
                },
            ),
            model_info: None,
            capabilities: Some(Capabilities::default()),
        };
        let ghost added = device@;
        self.paired_extra.push(device);
        assert(each(self.paired_extra@) =~= before.push(added));
        let _ = self.settings.insert(slot, DeviceSettings::unsupported());
        slot
    }

    /// Start pairing, where no session is live.
    pub fn start_pairing(&mut self) -> (result: Result<(u64, PairingUpdate), PairingCommandError>)
        requires
            old(self).pairing is None ==> old(self).next_pairing_id < u64::MAX,
        ensures
            match result {
                Ok((id, update)) => {
                    &&& old(self).pairing is None
                    &&& id == old(self).next_pairing_id
                    &&& update@ == UpdateModel::Searching
                    &&& final(self)@ == (StateModel {
                        phase: Some(PhaseModel::Searching),
                        ..old(self)@.with_pairing_begun()
                    })
                },
                Err(error) => {
                    &&& old(self).pairing is Some
                    &&& error == PairingCommandError::AlreadyActive
                    &&& final(self)@ == old(self)@
                },
            },
    {
        if self.pairing.is_some() {
            return Err(PairingCommandError::AlreadyActive);
        }
        let id: u64 = self.begin_pairing();
        self.set_phase(PairingPhase::Searching);
        Ok((id, PairingUpdate::Searching))
    }

    /// The search of a session has found a device.
    pub fn discover(&mut self, id: u64) -> (update: Option<PairingUpdate>)
        ensures
            opt(update) == (if old(self)@.live(id) {
                Some(UpdateModel::DeviceFound(candidate()))
            } else {
                None
            }),
            final(self)@ == (if old(self)@.live(id) {
                StateModel {
                    pairing: Some(PairingModel { id, discovered: Some(candidate()) }),
                    phase: Some(PhaseModel::Found(seq![candidate()])),
                    ..old(self)@
                }
            } else {
                old(self)@
            }),
    {
        if !self.pairing_session(id) {
            return None;
        }
        self.pairing = Some(PairingSession { id, discovered: Some(found_candidate()) });
        let mut found: Vec<FoundDevice> = Vec::new();
        found.push(found_candidate());
        assert(each(found@) =~= seq![candidate()]);
        self.set_phase(PairingPhase::Found(found));
        Some(PairingUpdate::DeviceFound(found_candidate()))
    }

    /// Pair with a device that the live session found.
    pub fn pair_device(&mut self, address: [u8; 6]) -> (result: Result<
        (u64, String),
        PairingCommandError,
    >)
        ensures
            match old(self)@.pairing {
                None => result == Err::<(u64, String), _>(PairingCommandError::NoActiveSession)
                    && final(self)@ == old(self)@,
                Some(session) => if session.discovered matches Some(found) && found.address
                    == address@ {
                    &&& result matches Ok((id, name)) && id == session.id && name@
                        == session.discovered.unwrap().name
                    &&& final(self)@ == (StateModel {
                        phase: Some(PhaseModel::Pairing),
                        ..old(self)@
                    })
                } else {
                    &&& result == Err::<(u64, String), _>(PairingCommandError::UnknownDevice)
                    &&& final(self)@ == old(self)@
                },
            },
    {
        let chosen = match &self.pairing {
            None => {
                return Err(PairingCommandError::NoActiveSession);
            },
            Some(session) => match &session.discovered {
                Some(found) => {
                    if same_address(&found.address, &address) {
                        (session.id, found.name.replicate())
                    } else {
                        return Err(PairingCommandError::UnknownDevice);
                    }
                },
                None => {
                    return Err(PairingCommandError::UnknownDevice);
                },
            },
        };
        self.set_phase(PairingPhase::Pairing);
        Ok(chosen)
    }

    /// Ask for the passkey, where the session is still the live one.
    pub fn ask_passkey(&mut self, id: u64) -> (update: Option<PairingUpdate>)
        ensures
            opt(update) == (if old(self)@.live(id) {
                Some(UpdateModel::Passkey("482913"@))
            } else {
                None
            }),
            final(self)@ == (if old(self)@.live(id) {
                StateModel { phase: Some(PhaseModel::Passkey("482913"@)), ..old(self)@ }
            } else {
                old(self)@
            }),
    {
        if !self.pairing_session(id) {
            return None;
        }
        self.set_phase(PairingPhase::Passkey(PasskeyMethod::Keyboard("482913".to_owned())));
        Some(PairingUpdate::Passkey(PasskeyMethod::Keyboard("482913".to_owned())))
    }

    /// The passkey was typed: the device is paired, where the session is still
    /// the live one.
    pub fn finish_pairing(&mut self, id: u64, name: &str) -> (update: Option<PairingUpdate>)
        ensures
            opt(update) == (if old(self)@.live(id) {
                Some(UpdateModel::Paired { slot: old(self).next_slot })
            } else {
                None
            }),
            final(self)@ == (if old(self)@.live(id) {
                StateModel {
                    pairing: None,
                    phase: Some(PhaseModel::Paired { slot: old(self).next_slot }),
                    ..old(self)@.with_paired(name@)
                }
            } else {
                old(self)@
            }),
    {
        if !self.end_pairing(id) {
            return None;
        }
        let slot: u8 = self.pair_scripted(name);
        self.set_phase(PairingPhase::Paired { slot });
        Some(PairingUpdate::Paired { slot })
    }

    /// Call pairing off, or put its result away.
    pub fn cancel_pairing(&mut self) -> (update: Option<PairingUpdate>)
        ensures
            opt(update) == (if old(self)@.pairing is Some {
                Some(UpdateModel::Cancelled)
            } else {
                None
            }),
            final(self)@ == (StateModel { pairing: None, phase: None, ..old(self)@ }),
    {
        self.phase = None;
        if self.pairing.is_some() {
            self.pairing = None;
            Some(PairingUpdate::Cancelled)
        } else {
            None
        }
    }
}

/// Whether the light can be told, by this route.
pub fn set_light(route: &DeviceRoute) -> (result: Result<(), WriteError>)
    ensures
        result == (if route@ == light_route_model() {
            Ok(())
        } else {
            Err(WriteError::DeviceNotFound)
        }),
{
    if route.same(&crate::mock::inventory::light_route()) {
        Ok(())
    } else {
        Err(WriteError::DeviceNotFound)
    }
}

/// What a device was told is what it answers, and no other device is changed.
pub proof fn law_what_was_told_is_read_back(
    state: StateModel,
    route: RouteModel,
    other: RouteModel,
    settings: SettingsModel,
)
    requires
        device_index(route) is Some,
    ensures
        state.with_settings(route, settings).settings_at(route) == Some(settings),
        device_index(other) != device_index(route) ==> state.with_settings(
            route,
            settings,
        ).settings_at(other) == state.settings_at(other),
{
}

/// A session that was called off stays off, whatever is started after it: its
/// steps find another session, or none.
pub proof fn law_a_cancelled_session_stays_cancelled(state: StateModel, id: u64)
    requires
        id < state.next_pairing_id < u64::MAX,
    ensures
        !(StateModel { pairing: None, phase: None, ..state }).live(id),
        !(StateModel { pairing: None, phase: None, ..state }).with_pairing_begun().live(id),
{
}

/// What was paired is listed last with the receiver, and can be told nothing.
pub proof fn law_a_paired_device_joins_the_receiver(
    state: StateModel,
    name: Seq<char>,
    seconds: u64,
)
    ensures
        state.with_paired(name).inventory(seconds)[0].paired.last() == paired_keyboard(
            state.next_slot,
            name,
        ),
        state.with_paired(name).inventory(seconds)[0].paired.drop_last() == state.inventory(
            seconds,
        )[0].paired,
        state.with_paired(name).settings_at(
            RouteModel::Bolt { receiver_uid: RECEIVER_UID@, slot: state.next_slot },
        ) == Some(SettingsModel::none()),
{
    let before = state.inventory(seconds)[0].paired;
    let after = state.with_paired(name).inventory(seconds)[0].paired;
    assert(after =~= before.push(paired_keyboard(state.next_slot, name)));
    assert(after.drop_last() =~= before);
}

/// Every device that is paired gets a slot of its own, the next one, as long as
/// there are any; and what was told to the devices before it stays.
pub proof fn law_each_pairing_takes_the_next_slot(
    state: StateModel,
    name: Seq<char>,
    next: Seq<char>,
    route: RouteModel,
)
    ensures
        state.next_slot < u8::MAX ==> {
            let after = state.with_paired(name).with_paired(next).paired_extra;
            &&& after.len() == state.paired_extra.len() + 2
            &&& after[after.len() - 2].slot == state.next_slot
            &&& after[after.len() - 2].codename == Some(name)
            &&& after.last().slot == state.next_slot + 1
            &&& after.last().codename == Some(next)
        },
        forall|i: int|
            0 <= i < state.paired_extra.len() ==> state.with_paired(name).paired_extra[i]
                == #[trigger] state.paired_extra[i],
        device_index(route) != Some(state.next_slot) ==> state.with_paired(name).settings_at(route)
            == state.settings_at(route),
        state.with_paired(name).pairing == state.pairing,
        state.with_paired(name).paired_extra.last().online,
        state.with_paired(name).paired_extra.last().kind is Keyboard,
{
}

/// A session that was begun is the live one, and no other is; it has found
/// nothing yet, and no later one has its number.
pub proof fn law_the_session_begun_last_is_live(state: StateModel, id: u64)
    requires
        state.next_pairing_id < u64::MAX - 1,
    ensures
        state.with_pairing_begun().live(id) <==> id == state.next_pairing_id,
        state.with_pairing_begun().pairing.unwrap().discovered is None,
        state.with_pairing_begun().next_pairing_id == state.next_pairing_id + 1,
        !state.with_pairing_begun().with_pairing_begun().live(state.next_pairing_id),
        state.with_pairing_begun().paired_extra == state.paired_extra,
        state.with_pairing_begun().settings == state.settings,
{
}

/// The resolutions a device takes lie in its range, its lowest and its highest
/// among them, and each is one step above the one before.
pub proof fn law_resolutions_go_by_steps(low: int, count: int, step: int, i: int)
    requires
        step > 0,
        0 <= low,
        0 <= i <= count,
        low + count * step <= u16::MAX,
    ensures
        stepped(low, low + count * step, step).len() == count + 1,
        stepped(low, low + count * step, step)[0] == low,
        stepped(low, low + count * step, step)[count] == low + count * step,
        i > 0 ==> stepped(low, low + count * step, step)[i] == stepped(
            low,
            low + count * step,
            step,
        )[i - 1] + step,
{
    assert((count * step) / step == count) by (nonlinear_arith)
        requires
            step > 0,
    ;
    assert(0 <= i * step <= count * step) by (nonlinear_arith)
        requires
            0 <= i <= count,
            step > 0,
    ;
    assert(i * step == (i - 1) * step + step) by (nonlinear_arith);
    assert(0 * step == 0) by (nonlinear_arith);
    if i > 0 {
        assert(0 <= (i - 1) * step) by (nonlinear_arith)
            requires
                0 < i,
                step > 0,
        ;
    }
}

/// At first, each of the scripted devices can be told what it has: the mouse and
/// the one without a receiver a resolution, the mouse alone a wheel, and the
/// keyboard alone lighting; nothing is being paired, and the slot behind theirs is
/// the next.
pub proof fn law_what_a_scripted_device_can_be_told(
    auto_disengage: SmartShiftThreshold,
    battery: BatteryInfo,
    i: int,
)
    requires
        0 <= i < bolt_model(battery).paired.len(),
    ensures
        ({
            let state = StateModel::initial(auto_disengage);
            let device = bolt_model(battery).paired[i];
            let known = state.settings_at(
                RouteModel::Bolt { receiver_uid: RECEIVER_UID@, slot: device.slot },
            );
            let direct = state.settings_at(
                RouteModel::Direct { vendor_id: LOGITECH_VENDOR_ID, product_id: DIRECT_PID },
            );
            &&& known is Some && direct is Some
            &&& known.unwrap().dpi is Some <==> device.capabilities is Some
                && device.capabilities.unwrap().pointer
            &&& known.unwrap().smartshift is Some <==> device.capabilities is Some
                && device.capabilities.unwrap().hires_wheel
            &&& known.unwrap().lighting <==> device.capabilities is Some
                && device.capabilities.unwrap().lighting
            &&& direct.unwrap().dpi is Some && direct.unwrap().smartshift is None
                && !direct.unwrap().lighting
            &&& state.pairing is None && state.phase is None && state.paired_extra.len() == 0
            &&& device.slot < state.next_slot && state.next_slot == bolt_model(battery).paired.len() + 1
        }),
{
}

}
