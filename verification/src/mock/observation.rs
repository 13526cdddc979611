//! What the scripted agent shows, and how often it changed.

use vstd::prelude::*;
use vstd::string::{StrSliceExecFns, StringExecFns};

use crate::agent::devices::InventoryHealth;
use crate::device::{DeviceInventory, InventoryModel, StandaloneDevice, StandaloneModel};
use crate::mock::inventory::{
    camera_active, camera_on, foreground, foreground_at, light_model, standalone_light,
    ForegroundApps, ForegroundModel,
};
use crate::mock::state::{PairingPhase, PhaseModel, State, StateModel};
use crate::ordered::{each, opt, replicate_opt, same_each, same_opt, Same};

verus! {

/// How the agent does.
#[derive(Debug, PartialEq, Eq)]
pub struct AgentStatus {
    pub accessibility_granted: bool,
    pub hook_installed: bool,
    pub launch_at_login: bool,
    pub inventory: InventoryHealth,
    pub protocol_version: u32,
    pub agent_version: String,
    pub input_monitoring_granted: bool,
    pub hid_open_failures: bool,
}

/// The model of an [`AgentStatus`].
#[verifier::ext_equal]
pub ghost struct StatusModel {
    pub accessibility_granted: bool,
    pub hook_installed: bool,
    pub launch_at_login: bool,
    pub inventory: InventoryHealth,
    pub protocol_version: u32,
    pub agent_version: Seq<char>,
    pub input_monitoring_granted: bool,
    pub hid_open_failures: bool,
}

impl View for AgentStatus {
    type V = StatusModel;

    open spec fn view(&self) -> StatusModel {
        StatusModel {
            accessibility_granted: self.accessibility_granted,
            hook_installed: self.hook_installed,
            launch_at_login: self.launch_at_login,
            inventory: self.inventory,
            protocol_version: self.protocol_version,
            agent_version: self.agent_version@,
            input_monitoring_granted: self.input_monitoring_granted,
            hid_open_failures: self.hid_open_failures,
        }
    }
}

impl Same for AgentStatus {
    fn same(&self, other: &Self) -> (same: bool) {
        self.accessibility_granted == other.accessibility_granted && self.hook_installed
            == other.hook_installed && self.launch_at_login == other.launch_at_login
            && self.inventory == other.inventory && self.protocol_version == other.protocol_version
            && self.agent_version.same(&other.agent_version) && self.input_monitoring_granted
            == other.input_monitoring_granted && self.hid_open_failures == other.hid_open_failures
    }
}

/// All is well; the version says that the agent is a scripted one.
pub open spec fn status_model(
    launch_at_login: bool,
    protocol_version: u32,
    version: Seq<char>,
) -> StatusModel {
    StatusModel {
        accessibility_granted: true,
        hook_installed: true,
        launch_at_login,
        inventory: InventoryHealth::Ready,
        protocol_version,
        agent_version: version + "-mock"@,
        input_monitoring_granted: true,
        hid_open_failures: false,
    }
}

/// All is well; the version says that the agent is a scripted one.
pub fn agent_status(launch_at_login: bool, protocol_version: u32, version: &str) -> (status:
    AgentStatus)
    ensures
        status@ == status_model(launch_at_login, protocol_version, version@),
{
    let mut agent_version = version.to_owned();
    agent_version.append("-mock");
    AgentStatus {
        accessibility_granted: true,
        hook_installed: true,
        launch_at_login,
        inventory: InventoryHealth::Ready,
        protocol_version,
        agent_version,
        input_monitoring_granted: true,
        hid_open_failures: false,
    }
}

/// All that the agent shows.
#[derive(Debug, PartialEq, Eq)]
pub struct AgentSnapshot {
    pub status: AgentStatus,
    pub inventory: Vec<DeviceInventory>,
    pub standalone: Vec<StandaloneDevice>,
    pub camera_active: bool,
    pub pairing: Option<PairingPhase>,
    pub foreground: ForegroundApps,
}

/// The model of an [`AgentSnapshot`].
#[verifier::ext_equal]
pub ghost struct SnapshotModel {
    pub status: StatusModel,
    pub inventory: Seq<InventoryModel>,
    pub standalone: Seq<StandaloneModel>,
    pub camera_active: bool,
    pub pairing: Option<PhaseModel>,
    pub foreground: ForegroundModel,
}

impl View for AgentSnapshot {
    type V = SnapshotModel;

    open spec fn view(&self) -> SnapshotModel {
        SnapshotModel {
            status: self.status@,
            inventory: each(self.inventory@),
            standalone: each(self.standalone@),
            camera_active: self.camera_active,
            pairing: opt(self.pairing),
            foreground: self.foreground@,
        }
    }
}

impl Same for AgentSnapshot {
    fn same(&self, other: &Self) -> (same: bool) {
        self.status.same(&other.status) && same_each(&self.inventory, &other.inventory)
            && same_each(&self.standalone, &other.standalone) && self.camera_active
            == other.camera_active && same_opt(&self.pairing, &other.pairing) && same_opt(
            &self.foreground.current,
            &other.foreground.current,
        ) && same_each(&self.foreground.recent, &other.foreground.recent)
    }
}

/// What is shown after so many seconds.
pub open spec fn snapshot_at(
    state: StateModel,
    status: StatusModel,
    seconds: u64,
) -> SnapshotModel {
    SnapshotModel {
        status,
        inventory: state.inventory(seconds),
        standalone: seq![light_model()],
        camera_active: camera_on(seconds),
        pairing: state.phase,
        foreground: foreground_at(seconds),
    }
}

/// What is shown after so many seconds.
pub fn snapshot_of(state: &State, status: AgentStatus, seconds: u64) -> (snapshot: AgentSnapshot)
    ensures
        snapshot@ == snapshot_at(state@, status@, seconds),
{
    let mut standalone: Vec<StandaloneDevice> = Vec::new();
    standalone.push(standalone_light());
    assert(each(standalone@) =~= seq![light_model()]);
    AgentSnapshot {
        status,
        inventory: state.render_inventory(seconds),
        standalone,
        camera_active: camera_active(seconds),
        pairing: replicate_opt(&state.phase),
        foreground: foreground(seconds),
    }
}

/// What was shown last, and the number of its generation.
#[derive(Debug, PartialEq, Eq)]
pub struct Observation {
    pub generation: u64,
    pub snapshot: AgentSnapshot,
}

/// The model of an [`Observation`].
#[verifier::ext_equal]
pub ghost struct ObservationModel {
    pub generation: u64,
    pub snapshot: SnapshotModel,
}

impl View for Observation {
    type V = ObservationModel;

    open spec fn view(&self) -> ObservationModel {
        ObservationModel { generation: self.generation, snapshot: self.snapshot@ }
    }
}

impl ObservationModel {
    /// With another look taken.
    pub open spec fn after(self, snapshot: SnapshotModel) -> ObservationModel {
        if snapshot == self.snapshot {
            self
        } else {
            ObservationModel { generation: (self.generation + 1) as u64, snapshot }
        }
    }
}

impl Observation {
    /// The first look.
    pub fn first(snapshot: AgentSnapshot) -> (observation: Observation)
        ensures
            observation@ == (ObservationModel { generation: 1, snapshot: snapshot@ }),
    {
        Observation { generation: 1, snapshot }
    }

    /// Take another look: a new generation where something changed.
    pub fn refresh(&mut self, snapshot: AgentSnapshot)
        requires
            old(self).generation < u64::MAX,
        ensures
            final(self)@ == old(self)@.after(snapshot@),
    {
        if !self.snapshot.same(&snapshot) {
            self.generation = self.generation + 1;
            self.snapshot = snapshot;
        }
    }

    /// Whether one who saw generation `since` is answered now.
    pub fn answers(&self, since: u64, deadline_passed: bool) -> (yes: bool)
        ensures
            yes == (self.generation != since || deadline_passed),
    {
        self.generation != since || deadline_passed
    }
}

/// The generation says whether something changed since.
pub proof fn law_a_new_generation_is_a_change(served: ObservationModel, snapshot: SnapshotModel)
    requires
        served.generation < u64::MAX,
    ensures
        served.after(snapshot).generation == served.generation <==> snapshot == served.snapshot,
        served.after(snapshot).snapshot == snapshot,
{
}

}
