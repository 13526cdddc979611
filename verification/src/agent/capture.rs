//! Which capture sessions run, and which events count.
//!
//! One session runs per wanted device. A session whose plan changed is told to
//! stop, and another starts only once it has ended: what it restores on its way
//! out would otherwise undo what the other has set.

use vstd::prelude::*;
use vstd::string::StrSliceExecFns;

use crate::agent::capture_plan::{
    gesture_source_buttons, gesture_sources, CaptureSessionMode, DeviceCapturePlan, PlanModel,
};
use crate::agent::dispatch::{
    find_plan, lookup, plan_of, Command, CommandModel, DispatcherModel, InputDispatcher,
    WheelConfiguration, WheelModel,
};
use crate::agent::input::{CapturedInput, InputModel};
use crate::agent::monitor::{ConflictModel, MonitorModel, TouchpadMonitor};
use crate::agent::session::{
    accepts, done_action, DoneAction, HidppSessionId, SessionModel,
};
use crate::binding::button::ButtonId;
use crate::config::settings::ThumbwheelSensitivity;
use crate::device::{DeviceRoute, RouteModel};
use crate::ordered::{
    copied, each, is_key_order, key_order, lemma_all_changed, lemma_filter_holds,
    lemma_key_order_exists, lemma_key_order_is_unique, lemma_none_changed, lemma_one_more_changed, lemma_taken_one_more, opt, replicate_opt,
    same_each, same_opt, some_changed, each_changed, without, OrderedKey, OrderedMap, Replicate, Same,
};

verus! {

/// What a capture session is asked to capture.
#[derive(Debug, PartialEq, Eq)]
pub struct CaptureSpec {
    pub mode: CaptureSessionMode,
    pub capture_thumbwheel: bool,
    pub divert_gesture_sources: Vec<u16>,
    pub divert_buttons: Vec<(u16, ButtonId)>,
    pub capture_touchpad: bool,
    pub touchpad_journal_id: Option<String>,
}

/// The model of a [`CaptureSpec`].
#[verifier::ext_equal]
pub ghost struct SpecModel {
    pub mode: CaptureSessionMode,
    pub capture_thumbwheel: bool,
    pub divert_gesture_sources: Seq<u16>,
    pub divert_buttons: Seq<(u16, ButtonId)>,
    pub capture_touchpad: bool,
    pub touchpad_journal_id: Option<Seq<char>>,
}

impl View for CaptureSpec {
    type V = SpecModel;

    open spec fn view(&self) -> SpecModel {
        SpecModel {
            mode: self.mode,
            capture_thumbwheel: self.capture_thumbwheel,
            divert_gesture_sources: self.divert_gesture_sources@,
            divert_buttons: self.divert_buttons@,
            capture_touchpad: self.capture_touchpad,
            touchpad_journal_id: opt(self.touchpad_journal_id),
        }
    }
}

impl Replicate for CaptureSpec {
    fn replicate(&self) -> (copy: Self) {
        CaptureSpec {
            mode: self.mode,
            capture_thumbwheel: self.capture_thumbwheel,
            divert_gesture_sources: copied(&self.divert_gesture_sources),
            divert_buttons: copied(&self.divert_buttons),
            capture_touchpad: self.capture_touchpad,
            touchpad_journal_id: replicate_opt(&self.touchpad_journal_id),
        }
    }
}

impl Same for (u16, ButtonId) {
    fn same(&self, other: &Self) -> (same: bool) {
        self.0 == other.0 && self.1 == other.1
    }
}

impl Same for CaptureSpec {
    fn same(&self, other: &Self) -> (same: bool) {
        proof {
            assert(each(self.divert_gesture_sources@) =~= self.divert_gesture_sources@);
            assert(each(other.divert_gesture_sources@) =~= other.divert_gesture_sources@);
            assert(each(self.divert_buttons@) =~= self.divert_buttons@);
            assert(each(other.divert_buttons@) =~= other.divert_buttons@);
        }
        self.mode == other.mode && self.capture_thumbwheel == other.capture_thumbwheel
            && self.capture_touchpad == other.capture_touchpad && same_each(
            &self.divert_gesture_sources,
            &other.divert_gesture_sources,
        ) && same_each(&self.divert_buttons, &other.divert_buttons) && same_opt(
            &self.touchpad_journal_id,
            &other.touchpad_journal_id,
        )
    }
}

/// Everything whose change starts a session over.
#[derive(Debug, PartialEq, Eq)]
pub struct SessionTarget {
    pub route: DeviceRoute,
    pub spec: CaptureSpec,
    pub wheel: WheelConfiguration,
    pub rearm_generation: u64,
}

/// The model of a [`SessionTarget`].
#[verifier::ext_equal]
pub ghost struct TargetModel {
    pub route: RouteModel,
    pub spec: SpecModel,
    pub wheel: WheelModel,
    pub rearm_generation: u64,
}

impl View for SessionTarget {
    type V = TargetModel;

    open spec fn view(&self) -> TargetModel {
        TargetModel {
            route: self.route@,
            spec: self.spec@,
            wheel: self.wheel@,
            rearm_generation: self.rearm_generation,
        }
    }
}

impl Replicate for SessionTarget {
    fn replicate(&self) -> (copy: Self) {
        SessionTarget {
            route: self.route.replicate(),
            spec: self.spec.replicate(),
            wheel: self.wheel.replicate(),
            rearm_generation: self.rearm_generation,
        }
    }
}

impl Same for SessionTarget {
    fn same(&self, other: &Self) -> (same: bool) {
        self.rearm_generation == other.rearm_generation && self.route.same(&other.route)
            && self.spec.same(&other.spec) && self.wheel.same(&other.wheel)
    }
}

/// Which controls have directions by a plan.
pub open spec fn swiping_source(plan: PlanModel) -> spec_fn((u16, ButtonId)) -> bool {
    |control: (u16, ButtonId)| plan.gesture_bindings.contains_key(control.1)
}

impl PlanModel {
    /// Whether the thumb wheel has to be captured: it counts for more or less
    /// than on its own, or does something else.
    pub open spec fn wheel_armed(self) -> bool {
        self.thumbwheel_sensitivity != ThumbwheelSensitivity::native()
            || self.thumbwheel_bindings_nondefault
    }

    /// What a session is asked to capture, where a client may ask for the
    /// touchpad.
    pub open spec fn spec(self, diagnostic_touchpad: bool) -> SpecModel {
        SpecModel {
            mode: if self.session_mode is TouchpadRecovery && diagnostic_touchpad {
                CaptureSessionMode::TouchpadOnly
            } else {
                self.session_mode
            },
            capture_thumbwheel: self.wheel_armed(),
            divert_gesture_sources: gesture_sources().filter(swiping_source(self)).map_values(
                |control: (u16, ButtonId)| control.0,
            ),
            divert_buttons: self.divert_buttons,
            capture_touchpad: self.capture_touchpad || (diagnostic_touchpad
                && self.touchpad_journal_id is Some),
            touchpad_journal_id: self.touchpad_journal_id,
        }
    }

    /// Everything whose change starts a session over.
    pub open spec fn target(self, diagnostic_touchpad: bool) -> TargetModel {
        TargetModel {
            route: self.route,
            spec: self.spec(diagnostic_touchpad),
            wheel: self.wheel(),
            rearm_generation: self.rearm_generation,
        }
    }
}

/// Whether the thumb wheel has to be captured.
pub fn thumbwheel_armed(plan: &DeviceCapturePlan) -> (yes: bool)
    ensures
        yes == plan@.wheel_armed(),
{
    plan.thumbwheel_sensitivity != ThumbwheelSensitivity::default()
        || plan.thumbwheel_bindings_nondefault
}

/// What a session is asked to capture.
pub fn spec_for(plan: &DeviceCapturePlan, diagnostic_touchpad: bool) -> (spec: CaptureSpec)
    ensures
        spec@ == plan@.spec(diagnostic_touchpad),
{
    let mode = if plan.session_mode == CaptureSessionMode::TouchpadRecovery
        && diagnostic_touchpad {
        CaptureSessionMode::TouchpadOnly
    } else {
        plan.session_mode
    };
    let sources = gesture_source_buttons();
    let ghost all = gesture_sources();
    let ghost pred = swiping_source(plan@);
    let ghost cid = |control: (u16, ButtonId)| control.0;
    let mut divert_gesture_sources: Vec<u16> = Vec::new();
    let mut i: usize = 0;
    proof {
        reveal(Seq::filter);
        assert(all.take(0).filter(pred).map_values(cid) =~= Seq::<u16>::empty());
    }
    while i < sources.len()
        invariant
            all == gesture_sources(),
            sources@ == all,
            i <= all.len(),
            pred == swiping_source(plan@),
            cid == (|control: (u16, ButtonId)| control.0),
            divert_gesture_sources@ == all.take(i as int).filter(pred).map_values(cid),
        decreases all.len() - i,
    {
        let control = sources[i];
        assert(control == all[i as int]);
        if plan.gesture_bindings.contains_key(&control.1) {
            divert_gesture_sources.push(control.0);
        }
        proof {
            reveal(Seq::filter);
            let before = all.take(i as int).filter(pred);
            assert(all.take(i + 1).drop_last() =~= all.take(i as int));
            assert(all.take(i + 1).last() == control);
            assert(before.push(control).map_values(cid) =~= before.map_values(cid).push(
                control.0,
            ));
        }
        i += 1;
    }
    assert(all.take(i as int) =~= all);
    CaptureSpec {
        mode,
        capture_thumbwheel: thumbwheel_armed(plan),
        divert_gesture_sources,
        divert_buttons: copied(&plan.divert_buttons),
        capture_touchpad: plan.capture_touchpad || (diagnostic_touchpad
            && plan.touchpad_journal_id.is_some()),
        touchpad_journal_id: replicate_opt(&plan.touchpad_journal_id),
    }
}

impl SessionTarget {
    /// Everything whose change starts a session over.
    pub fn for_plan(plan: &DeviceCapturePlan, diagnostic_touchpad: bool) -> (target: SessionTarget)
        ensures
            target@ == plan@.target(diagnostic_touchpad),
    {
        SessionTarget {
            route: plan.route.replicate(),
            spec: spec_for(plan, diagnostic_touchpad),
            wheel: WheelConfiguration::for_plan(plan),
            rearm_generation: plan.rearm_generation,
        }
    }
}

/// A session that has not ended.
#[derive(Debug, PartialEq, Eq)]
pub struct RunningSession {
    pub id: HidppSessionId,
    pub target: SessionTarget,
    /// Whether it was left running: one that was told to stop has not ended
    /// before it has restored its controls.
    pub running: bool,
}

/// The model of a [`RunningSession`].
pub ghost struct RunningModel {
    pub id: SessionModel,
    pub target: TargetModel,
    pub running: bool,
}

impl View for RunningSession {
    type V = RunningModel;

    open spec fn view(&self) -> RunningModel {
        RunningModel { id: self.id@, target: self.target@, running: self.running }
    }
}

/// A session as far as its events and its end go.
pub open spec fn life(session: Option<RunningModel>) -> Option<(SessionModel, bool)> {
    match session {
        Some(session) => Some((session.id, session.running)),
        None => None,
    }
}

/// The model of an optional session.
pub open spec fn opt_session(session: Option<&RunningSession>) -> Option<RunningModel> {
    match session {
        Some(session) => Some(session@),
        None => None,
    }
}

/// What a session's end means.
pub fn on_done(done_session: &HidppSessionId, live: Option<&RunningSession>) -> (action: DoneAction)
    ensures
        action == done_action(done_session@, life(opt_session(live))),
{
    match live {
        Some(session) => if session.id.same(done_session) {
            DoneAction::Remove { unexpected: session.running }
        } else {
            DoneAction::Ignore
        },
        None => DoneAction::Ignore,
    }
}

/// Whether an event of a session counts.
pub fn accepts_input(input_session: &HidppSessionId, live: Option<&RunningSession>) -> (yes: bool)
    ensures
        yes == accepts(input_session@, life(opt_session(live))),
{
    match live {
        Some(session) => session.running && session.id.same(input_session),
        None => false,
    }
}

/// Whether a plan still asks for what a session captures.
pub fn session_matches_plan(
    session: &RunningSession,
    plan: &DeviceCapturePlan,
    diagnostic_touchpad: bool,
) -> (yes: bool)
    ensures
        yes == (session@.target == plan@.target(diagnostic_touchpad)),
{
    session.target.same(&SessionTarget::for_plan(plan, diagnostic_touchpad))
}

/// What the record of raw modes says of a touchpad.
#[derive(Clone, Copy, Debug, PartialEq, Eq, Structural)]
pub enum JournalState {
    /// The touchpad was left in raw mode.
    Recorded,
    /// It was not.
    Missing,
    /// The record cannot be read.
    Unreadable,
}

impl View for JournalState {
    type V = JournalState;

    open spec fn view(&self) -> JournalState {
        *self
    }
}

/// The target that a plan wants, where `journal` is the record of raw modes, if
/// it can be had at all. A touchpad is put back only where it may have been left
/// in raw mode.
pub open spec fn wanted_target(
    plan: PlanModel,
    monitor: MonitorModel,
    journal: Option<Map<Seq<char>, JournalState>>,
) -> Option<TargetModel> {
    let target = plan.target(monitor.requests(plan.config_key));
    if target.spec.mode is TouchpadRecovery {
        match (target.spec.touchpad_journal_id, journal) {
            (Some(id), Some(records)) => if records.contains_key(id) && records[id]
                != JournalState::Missing {
                Some(target)
            } else {
                None
            },
            _ => None,
        }
    } else {
        Some(target)
    }
}

/// The sessions that plans want, by device.
pub open spec fn wanted_by(
    plans: Seq<PlanModel>,
    monitor: MonitorModel,
    journal: Option<Map<Seq<char>, JournalState>>,
) -> Map<Seq<char>, TargetModel>
    decreases plans.len(),
{
    if plans.len() == 0 {
        Map::empty()
    } else {
        let before = wanted_by(plans.drop_last(), monitor, journal);
        match wanted_target(plans.last(), monitor, journal) {
            Some(target) => before.insert(plans.last().config_key, target),
            None => before,
        }
    }
}

/// The sessions that should run; none while the receivers are needed otherwise.
pub open spec fn wanted(
    exclusive: bool,
    plans: Seq<PlanModel>,
    monitor: MonitorModel,
    journal: Option<Map<Seq<char>, JournalState>>,
) -> Map<Seq<char>, TargetModel> {
    if exclusive {
        Map::empty()
    } else {
        wanted_by(plans, monitor, journal)
    }
}

/// The model of the record of raw modes.
pub open spec fn opt_journal(journal: Option<&OrderedMap<String, JournalState>>) -> Option<
    Map<Seq<char>, JournalState>,
> {
    match journal {
        Some(records) => Some(records@),
        None => None,
    }
}

/// The sessions that should run.
pub fn wanted_sessions(
    exclusive_requested: bool,
    plans: &Vec<DeviceCapturePlan>,
    monitor: &TouchpadMonitor,
    journal: Option<&OrderedMap<String, JournalState>>,
) -> (targets: OrderedMap<String, SessionTarget>)
    ensures
        targets@ == wanted(exclusive_requested, each(plans@), monitor@, opt_journal(journal)),
{
    let mut targets: OrderedMap<String, SessionTarget> = OrderedMap::new();
    if exclusive_requested {
        return targets;
    }
    let ghost all = each(plans@);
    let mut i: usize = 0;
    assert(all.take(0) =~= Seq::<PlanModel>::empty());
    while i < plans.len()
        invariant
            all == each(plans@),
            i <= all.len(),
            targets@ == wanted_by(all.take(i as int), monitor@, opt_journal(journal)),
        decreases all.len() - i,
    {
        let plan = &plans[i];
        proof {
            assert(all.take(i + 1).drop_last() =~= all.take(i as int));
            assert(all.take(i + 1).last() == plan@);
        }
        let target = SessionTarget::for_plan(
            plan,
            monitor.capture_requested_for(plan.config_key.as_str()),
        );
        let wanted_now: bool = if target.spec.mode == CaptureSessionMode::TouchpadRecovery {
            match (&target.spec.touchpad_journal_id, journal) {
                (Some(id), Some(records)) => match records.get(id.as_str()) {
                    Some(state) => *state != JournalState::Missing,
                    None => false,
                },
                _ => false,
            }
        } else {
            true
        };
        if wanted_now {
            let _ = targets.insert(plan.config_key.replicate(), target);
        }
        i += 1;
    }
    assert(all.take(i as int) =~= all);
    targets
}

/// Why a session ended.
#[derive(Clone, Copy, Debug, PartialEq, Eq, Structural)]
pub enum SessionError {
    /// Another program changed the touchpad's raw mode.
    TouchpadRawModeConflict { expected: u8, actual: u8 },
    /// The device could not be talked to.
    Other,
}

/// That a session ended, and why.
#[derive(Debug, PartialEq, Eq)]
pub struct SessionDone {
    pub session: HidppSessionId,
    pub error: Option<SessionError>,
}

/// What is worth a word about a session's end.
#[derive(Clone, Copy, Debug, PartialEq, Eq, Structural)]
pub enum DoneReport {
    /// Nothing: the session was not the current one.
    Stale,
    /// Nothing: the session ended as it should.
    Settled,
    /// It ended on its own, and another will start.
    Unexpected,
    /// The touchpad is in another program's hands.
    Conflict { expected: u8, actual: u8 },
}

/// What one look at the plans leads to.
#[derive(Debug, PartialEq, Eq)]
pub struct Tick {
    /// The sessions to tell to stop.
    pub stop: Vec<HidppSessionId>,
    /// The sessions to start.
    pub start: Vec<SessionStart>,
}

/// A session to start.
#[derive(Debug, PartialEq, Eq)]
pub struct SessionStart {
    pub id: HidppSessionId,
    pub target: SessionTarget,
}

/// The model of a [`SessionStart`].
pub ghost struct StartModel {
    pub id: SessionModel,
    pub target: TargetModel,
}

impl View for SessionStart {
    type V = StartModel;

    open spec fn view(&self) -> StartModel {
        StartModel { id: self.id@, target: self.target@ }
    }
}

/// Who runs the capture sessions.
pub struct CaptureManager {
    /// The sessions that have not ended, by device.
    pub sessions: OrderedMap<String, RunningSession>,
    /// What must not be captured, because another program is in the way.
    pub blocked: OrderedMap<String, SessionTarget>,
    /// What is remembered between events.
    pub dispatcher: InputDispatcher,
    /// What tells the next session from those before.
    pub next_epoch: u64,
}

/// The model of a [`CaptureManager`].
#[verifier::ext_equal]
pub ghost struct ManagerModel {
    pub sessions: Map<Seq<char>, RunningModel>,
    pub blocked: Map<Seq<char>, TargetModel>,
    pub dispatcher: DispatcherModel,
    pub next_epoch: u64,
}

impl View for CaptureManager {
    type V = ManagerModel;

    open spec fn view(&self) -> ManagerModel {
        ManagerModel {
            sessions: self.sessions@,
            blocked: self.blocked@,
            dispatcher: self.dispatcher@,
            next_epoch: self.next_epoch,
        }
    }
}

impl Default for CaptureManager {
    fn default() -> (manager: Self)
        ensures
            manager@ == (ManagerModel {
                sessions: Map::empty(),
                blocked: Map::empty(),
                dispatcher: DispatcherModel::blank(),
                next_epoch: 0,
            }),
    {
        CaptureManager {
            sessions: OrderedMap::new(),
            blocked: OrderedMap::new(),
            dispatcher: InputDispatcher::default(),
            next_epoch: 0,
        }
    }
}

/// What stays blocked: targets that are still wanted just so.
pub open spec fn still_blocked(
    blocked: Map<Seq<char>, TargetModel>,
    want: Map<Seq<char>, TargetModel>,
) -> Map<Seq<char>, TargetModel> {
    Map::new(
        |key: Seq<char>| blocked.contains_key(key) && lookup(want, key) == Some(blocked[key]),
        |key: Seq<char>| blocked[key],
    )
}

/// The conflicts without those of targets that are no longer blocked.
pub open spec fn conflicts_left(
    conflicts: Map<Seq<char>, ConflictModel>,
    blocked: Map<Seq<char>, TargetModel>,
    want: Map<Seq<char>, TargetModel>,
) -> Map<Seq<char>, ConflictModel> {
    Map::new(
        |key: Seq<char>|
            conflicts.contains_key(key) && !(blocked.contains_key(key) && lookup(want, key)
                != Some(blocked[key])),
        |key: Seq<char>| conflicts[key],
    )
}

/// A session told to stop, unless it is still wanted just so.
pub open spec fn stopped_unless(want: Map<Seq<char>, TargetModel>) -> spec_fn(
    Seq<char>,
    RunningModel,
) -> RunningModel {
    |key: Seq<char>, session: RunningModel|
        if lookup(want, key) == Some(session.target) {
            session
        } else {
            RunningModel { running: false, ..session }
        }
}

/// The sessions to tell to stop, in the order `keys`.
pub open spec fn to_stop(
    sessions: Map<Seq<char>, RunningModel>,
    want: Map<Seq<char>, TargetModel>,
    keys: Seq<Seq<char>>,
) -> Seq<SessionModel>
    decreases keys.len(),
{
    if keys.len() == 0 {
        Seq::empty()
    } else {
        let before = to_stop(sessions, want, keys.drop_last());
        let session = sessions[keys.last()];
        if session.running && lookup(want, keys.last()) != Some(session.target) {
            before.push(session.id)
        } else {
            before
        }
    }
}

/// Everything of several sessions forgotten.
pub open spec fn without_sessions(
    dispatcher: DispatcherModel,
    sessions: Seq<SessionModel>,
) -> DispatcherModel
    decreases sessions.len(),
{
    if sessions.len() == 0 {
        dispatcher
    } else {
        without_sessions(dispatcher, sessions.drop_last()).without_session(sessions.last())
    }
}

/// Whether a wanted target starts now.
pub open spec fn starts(
    sessions: Map<Seq<char>, RunningModel>,
    blocked: Map<Seq<char>, TargetModel>,
    key: Seq<char>,
    target: TargetModel,
) -> bool {
    !sessions.contains_key(key) && lookup(blocked, key) != Some(target)
}

impl ManagerModel {
    /// The manager with the sessions started that are wanted under `keys` and
    /// do not run yet, and those sessions.
    pub open spec fn started(
        self,
        want: Map<Seq<char>, TargetModel>,
        keys: Seq<Seq<char>>,
    ) -> (ManagerModel, Seq<StartModel>)
        decreases keys.len(),
    {
        if keys.len() == 0 {
            (self, Seq::empty())
        } else {
            let (before, begun) = self.started(want, keys.drop_last());
            let key = keys.last();
            if starts(before.sessions, before.blocked, key, want[key]) {
                let id = SessionModel { device_key: key, epoch: before.next_epoch };
                (
                    ManagerModel {
                        sessions: before.sessions.insert(
                            key,
                            RunningModel { id, target: want[key], running: true },
                        ),
                        next_epoch: before.next_epoch.wrapping_add(1),
                        ..before
                    },
                    begun.push(StartModel { id, target: want[key] }),
                )
            } else {
                (before, begun)
            }
        }
    }

    /// The manager once sessions that are no longer wanted were told to stop,
    /// and what stood in the way of changed targets was forgotten.
    pub open spec fn settled(self, want: Map<Seq<char>, TargetModel>) -> ManagerModel {
        let stop = self.stops(want);
        ManagerModel {
            sessions: each_changed(self.sessions, stopped_unless(want)),
            blocked: still_blocked(self.blocked, want),
            dispatcher: without_sessions(self.dispatcher, stop).with_devices_in(want),
            ..self
        }
    }

    /// The sessions to tell to stop.
    pub open spec fn stops(self, want: Map<Seq<char>, TargetModel>) -> Seq<SessionModel> {
        to_stop(self.sessions, want, key_order::<String, RunningModel>(self.sessions))
    }

    /// The manager after one look at the plans, where new sessions can start or
    /// cannot.
    pub open spec fn ticked(
        self,
        want: Map<Seq<char>, TargetModel>,
        lease_available: bool,
    ) -> (ManagerModel, Seq<StartModel>) {
        if lease_available {
            self.settled(want).started(want, key_order::<String, TargetModel>(want))
        } else {
            (self.settled(want), Seq::empty())
        }
    }

    /// The session that has not ended on a device.
    pub open spec fn live(self, device_key: Seq<char>) -> Option<RunningModel> {
        lookup(self.sessions, device_key)
    }

    /// Whether an event of a session counts: the session runs, the receivers are
    /// not needed otherwise, and the plan still asks for what it captures.
    pub open spec fn current(
        self,
        session: SessionModel,
        exclusive: bool,
        plans: Seq<PlanModel>,
        monitor: MonitorModel,
    ) -> bool {
        &&& accepts(session, life(self.live(session.device_key)))
        &&& !exclusive
        &&& plan_of(plans, session.device_key) matches Some(plan) && self.live(
            session.device_key,
        ).unwrap().target == plan.target(monitor.requests(session.device_key))
    }

    /// What an event leads to, and what is asked for.
    pub open spec fn captured(
        self,
        session: SessionModel,
        input: InputModel,
        exclusive: bool,
        plans: Seq<PlanModel>,
        monitor: MonitorModel,
    ) -> (ManagerModel, MonitorModel, CommandModel) {
        if self.current(session, exclusive, plans, monitor) {
            let plan = plan_of(plans, session.device_key);
            let (dispatcher, command) = self.dispatcher.step(
                session,
                input,
                plan,
                plan.unwrap().capture_touchpad,
            );
            (
                ManagerModel { dispatcher, ..self },
                monitor.recorded(session.device_key, input),
                command,
            )
        } else {
            (
                ManagerModel { dispatcher: self.dispatcher.without_session(session), ..self },
                monitor,
                CommandModel::Cancel { session },
            )
        }
    }

    /// What a session's end leads to.
    pub open spec fn ended(
        self,
        session: SessionModel,
        error: Option<SessionError>,
        monitor: MonitorModel,
    ) -> (ManagerModel, MonitorModel, DoneReport) {
        let key = session.device_key;
        match done_action(session, life(self.live(key))) {
            DoneAction::Ignore => (self, monitor, DoneReport::Stale),
            DoneAction::Remove { unexpected } => {
                let target = self.live(key).unwrap().target;
                let rest = ManagerModel {
                    sessions: self.sessions.remove(key),
                    dispatcher: self.dispatcher.without_session(session),
                    ..self
                };
                match error {
                    Some(SessionError::TouchpadRawModeConflict { expected, actual }) => (
                        ManagerModel { blocked: self.blocked.insert(key, target), ..rest },
                        MonitorModel {
                            conflicts: monitor.conflicts.insert(
                                key,
                                ConflictModel { device_key: key, expected, actual },
                            ),
                            ..monitor
                        },
                        DoneReport::Conflict { expected, actual },
                    ),
                    Some(SessionError::Other) => (
                        rest,
                        monitor,
                        if unexpected {
                            DoneReport::Unexpected
                        } else {
                            DoneReport::Settled
                        },
                    ),
                    None => (
                        rest,
                        monitor,
                        if unexpected && !(target.spec.mode is TouchpadRecovery) {
                            DoneReport::Unexpected
                        } else {
                            DoneReport::Settled
                        },
                    ),
                }
            },
        }
    }
}

fn still_wanted(
    want: &OrderedMap<String, SessionTarget>,
    key: &str,
    target: &SessionTarget,
) -> (yes: bool)
    ensures
        yes == (lookup(want@, key@) == Some(target@)),
{
    match want.get(key) {
        Some(now) => now.same(target),
        None => false,
    }
}

/// Forget what stood in the way of targets that changed or are gone.
pub fn clear_changed_conflicts(
    blocked: &mut OrderedMap<String, SessionTarget>,
    want: &OrderedMap<String, SessionTarget>,
    monitor: &mut TouchpadMonitor,
)
    ensures
        final(blocked)@ == still_blocked(old(blocked)@, want@),
        final(monitor)@ == (MonitorModel {
            conflicts: conflicts_left(old(monitor)@.conflicts, old(blocked)@, want@),
            ..old(monitor)@
        }),
{
    let ghost start = blocked@;
    let ghost conflicts = monitor@.conflicts;
    let ghost order = blocked.order();
    let n: usize = blocked.len();
    let mut gone: Vec<String> = Vec::new();
    let mut i: usize = 0;
    assert(without(conflicts, each(gone@)) =~= conflicts);
    while i < n
        invariant
            n == order.len(),
            order == blocked.order(),
            blocked@ == start,
            is_key_order::<String, TargetModel>(order, start),
            i <= n,
            forall|key: Seq<char>| #[trigger]
                each(gone@).contains(key) <==> order.take(i as int).contains(key) && lookup(
                    want@,
                    key,
                ) != Some(start[key]),
            monitor@ == (MonitorModel {
                conflicts: without(conflicts, each(gone@)),
                ..old(monitor)@
            }),
        decreases n - i,
    {
        let ghost before = each(gone@);
        let key = blocked.key_at(i);
        if !still_wanted(want, key.as_str(), blocked.value_at(i)) {
            monitor.clear_conflict(key.as_str());
            gone.push(key.replicate());
            proof {
                assert(each(gone@) =~= before.push(order[i as int]));
                assert forall|k: Seq<char>| #[trigger]
                    each(gone@).contains(k) <==> before.contains(k) || k == order[i as int] by {
                    if before.contains(k) {
                        assert(each(gone@)[before.index_of(k)] == k);
                    }
                    if each(gone@).contains(k) {
                        let j = each(gone@).index_of(k);
                        if j < before.len() {
                            assert(before[j] == k);
                        }
                    }
                    assert(each(gone@)[before.len() as int] == order[i as int]);
                }
                assert(monitor@.conflicts =~= without(conflicts, each(gone@)));
            }
        }
        proof {
            assert forall|k: Seq<char>| #[trigger]
                each(gone@).contains(k) <==> order.take(i + 1).contains(k) && lookup(want@, k)
                    != Some(start[k]) by {
                lemma_taken_one_more(order, i as int, k);
                assert(before.contains(k) <==> order.take(i as int).contains(k) && lookup(
                    want@,
                    k,
                ) != Some(start[k]));
            }
        }
        i += 1;
    }
    blocked.remove_all(&gone);
    proof {
        assert(order.take(n as int) =~= order);
        assert forall|k: Seq<char>| start.contains_key(k) <==> #[trigger] order.contains(k) by {
            if order.contains(k) {
                assert(order[order.index_of(k)] == k);
            }
        }
        assert(blocked@ =~= still_blocked(start, want@));
        assert(without(conflicts, each(gone@)) =~= conflicts_left(conflicts, start, want@));
    }
}

impl CaptureManager {
    fn stop_unwanted(&mut self, want: &OrderedMap<String, SessionTarget>) -> (stop: Vec<
        HidppSessionId,
    >)
        ensures
            each(stop@) == old(self)@.stops(want@),
            final(self)@ == (ManagerModel {
                sessions: each_changed(old(self)@.sessions, stopped_unless(want@)),
                dispatcher: without_sessions(old(self)@.dispatcher, old(self)@.stops(want@)),
                ..old(self)@
            }),
    {
        let ghost start = self@;
        let ghost f = stopped_unless(want@);
        let ghost order = self.sessions.order();
        let n: usize = self.sessions.len();
        let mut stop: Vec<HidppSessionId> = Vec::new();
        let mut i: usize = 0;
        proof {
            lemma_none_changed(start.sessions, order, f);
            assert(each(stop@) =~= to_stop(start.sessions, want@, order.take(0)));
        }
        while i < n
            invariant
                n == order.len(),
                order == self.sessions.order(),
                is_key_order::<String, RunningModel>(order, start.sessions),
                f == stopped_unless(want@),
                i <= n,
                each(stop@) == to_stop(start.sessions, want@, order.take(i as int)),
                self@ == (ManagerModel {
                    sessions: some_changed(start.sessions, order, f, i as int),
                    dispatcher: without_sessions(start.dispatcher, each(stop@)),
                    ..start
                }),
            decreases n - i,
        {
            let ghost before = each(stop@);
            let ghost key = order[i as int];
            proof {
                lemma_one_more_changed::<String, RunningModel>(
                    start.sessions,
                    order,
                    f,
                    i as int,
                );
                assert(order.take(i + 1).drop_last() =~= order.take(i as int));
                assert(order.take(i + 1).last() == key);
            }
            let keep: bool = still_wanted(
                want,
                self.sessions.key_at(i).as_str(),
                &self.sessions.value_at(i).target,
            );
            let running: bool = self.sessions.value_at(i).running;
            let ghost now = self@.sessions;
            if !keep && running {
                let id = self.sessions.value_at(i).id.replicate();
                self.dispatcher.cancel_session(&id);
                let session = self.sessions.value_at_mut(i);
                session.running = false;
                let ghost model = id@;
                stop.push(id);
                proof {
                    assert(each(stop@) =~= before.push(model));
                    assert(each(stop@).drop_last() =~= before);
                    assert(each(stop@).last() == model);
                }
            } else {
                assert(now =~= now.insert(key, start.sessions[key]));
            }
            i += 1;
        }
        proof {
            lemma_all_changed::<String, RunningModel>(start.sessions, order, f);
            assert(order.take(n as int) =~= order);
            let listed = key_order::<String, RunningModel>(start.sessions);
            assert(is_key_order::<String, RunningModel>(listed, start.sessions));
            lemma_key_order_is_unique::<String, RunningModel>(order, listed, start.sessions);
        }
        stop
    }

    fn start_wanted(&mut self, want: &OrderedMap<String, SessionTarget>) -> (start: Vec<
        SessionStart,
    >)
        ensures
            (final(self)@, each(start@)) == old(self)@.started(
                want@,
                key_order::<String, TargetModel>(want@),
            ),
    {
        let ghost begin = self@;
        let ghost order = want.order();
        let n: usize = want.len();
        let mut start: Vec<SessionStart> = Vec::new();
        let mut i: usize = 0;
        proof {
            assert(order.take(0) =~= Seq::<Seq<char>>::empty());
            assert(each(start@) =~= Seq::<StartModel>::empty());
        }
        while i < n
            invariant
                n == order.len(),
                order == want.order(),
                is_key_order::<String, TargetModel>(order, want@),
                i <= n,
                (self@, each(start@)) == begin.started(want@, order.take(i as int)),
            decreases n - i,
        {
            let ghost before = each(start@);
            proof {
                assert(order.take(i + 1).drop_last() =~= order.take(i as int));
                assert(order.take(i + 1).last() == order[i as int]);
            }
            let key = want.key_at(i);
            let target = want.value_at(i);
            let barred: bool = match self.blocked.get(key.as_str()) {
                Some(blocked) => blocked.same(target),
                None => false,
            };
            if !self.sessions.contains_key(key.as_str()) && !barred {
                let id = HidppSessionId::with_epoch(key.as_str(), self.next_epoch);
                self.next_epoch = self.next_epoch.wrapping_add(1);
                let _ = self.sessions.insert(
                    key.replicate(),
                    RunningSession {
                        id: id.replicate(),
                        target: target.replicate(),
                        running: true,
                    },
                );
                let begun = SessionStart { id, target: target.replicate() };
                let ghost model = begun@;
                start.push(begun);
                assert(each(start@) =~= before.push(model));
            }
            i += 1;
        }
        proof {
            assert(order.take(n as int) =~= order);
            let listed = key_order::<String, TargetModel>(want@);
            assert(is_key_order::<String, TargetModel>(listed, want@));
            lemma_key_order_is_unique::<String, TargetModel>(order, listed, want@);
        }
        start
    }

    /// Look at the plans, and say which sessions are to stop and to start.
    pub fn tick(
        &mut self,
        exclusive_requested: bool,
        plans: &Vec<DeviceCapturePlan>,
        monitor: &mut TouchpadMonitor,
        journal: Option<&OrderedMap<String, JournalState>>,
        lease_available: bool,
    ) -> (tick: Tick)
        ensures
            ({
                let want = wanted(
                    exclusive_requested,
                    each(plans@),
                    old(monitor)@,
                    opt_journal(journal),
                );
                &&& (final(self)@, each(tick.start@)) == old(self)@.ticked(want, lease_available)
                &&& each(tick.stop@) == old(self)@.stops(want)
                &&& final(monitor)@ == (MonitorModel {
                    conflicts: conflicts_left(
                        old(monitor)@.conflicts,
                        old(self)@.blocked,
                        want,
                    ),
                    ..old(monitor)@
                })
            }),
    {
        let want = wanted_sessions(exclusive_requested, plans, monitor, journal);
        clear_changed_conflicts(&mut self.blocked, &want, monitor);
        let stop = self.stop_unwanted(&want);
        self.dispatcher.retain_devices(&want);
        assert(self@ =~= old(self)@.settled(want@));
        let start = if lease_available {
            self.start_wanted(&want)
        } else {
            let none: Vec<SessionStart> = Vec::new();
            assert(each(none@) =~= Seq::<StartModel>::empty());
            none
        };
        Tick { stop, start }
    }

    /// Take in one event of a session, and say what it asks for.
    pub fn handle_captured_event(
        &mut self,
        session: &HidppSessionId,
        input: &CapturedInput,
        exclusive_requested: bool,
        plans: &Vec<DeviceCapturePlan>,
        monitor: &mut TouchpadMonitor,
    ) -> (command: Command)
        ensures
            (final(self)@, final(monitor)@, command@) == old(self)@.captured(
                session@,
                input@,
                exclusive_requested,
                each(plans@),
                old(monitor)@,
            ),
    {
        let key = session.device_key();
        let live = self.sessions.get(key);
        let mut touchpad_actions_enabled: bool = false;
        let mut current: bool = false;
        if accepts_input(session, live) && !exclusive_requested {
            if let (Some(running), Some(plan)) = (live, find_plan(plans, key)) {
                touchpad_actions_enabled = plan.capture_touchpad;
                current =
                    session_matches_plan(running, plan, monitor.capture_requested_for(key));
            }
        }
        if current {
            monitor.record(key, input);
            self.dispatcher.dispatch(session, input, plans, touchpad_actions_enabled)
        } else {
            self.dispatcher.cancel_session(session);
            Command::Cancel { session: session.replicate() }
        }
    }

    /// Take in that a session ended.
    pub fn handle_session_done(
        &mut self,
        done: &SessionDone,
        monitor: &mut TouchpadMonitor,
    ) -> (report: DoneReport)
        ensures
            (final(self)@, final(monitor)@, report) == old(self)@.ended(
                done.session@,
                done.error,
                old(monitor)@,
            ),
    {
        let key = done.session.device_key();
        let unexpected: bool = match on_done(&done.session, self.sessions.get(key)) {
            DoneAction::Ignore => {
                return DoneReport::Stale;
            },
            DoneAction::Remove { unexpected } => unexpected,
        };
        self.dispatcher.cancel_session(&done.session);
        let session = match self.sessions.remove(key) {
            Some(session) => session,
            None => {
                return DoneReport::Stale;
            },
        };
        match done.error {
            Some(SessionError::TouchpadRawModeConflict { expected, actual }) => {
                let _ = self.blocked.insert(key.to_owned(), session.target);
                monitor.set_conflict(key, expected, actual);
                DoneReport::Conflict { expected, actual }
            },
            Some(SessionError::Other) => if unexpected {
                DoneReport::Unexpected
            } else {
                DoneReport::Settled
            },
            None => if unexpected && session.target.spec.mode
                != CaptureSessionMode::TouchpadRecovery {
                DoneReport::Unexpected
            } else {
                DoneReport::Settled
            },
        }
    }
}

proof fn lemma_starting_keeps_sessions(
    manager: ManagerModel,
    want: Map<Seq<char>, TargetModel>,
    keys: Seq<Seq<char>>,
    key: Seq<char>,
)
    requires
        manager.sessions.contains_key(key),
    ensures
        manager.started(want, keys).0.sessions.contains_key(key),
        manager.started(want, keys).0.sessions[key] == manager.sessions[key],
        forall|i: int|
            0 <= i < manager.started(want, keys).1.len() ==> (#[trigger] manager.started(
                want,
                keys,
            ).1[i]).id.device_key != key,
    decreases keys.len(),
{
    if keys.len() > 0 {
        lemma_starting_keeps_sessions(manager, want, keys.drop_last(), key);
    }
}

/// A device whose session has not ended gets no other: a session that was told
/// to stop restores its controls before another sets them.
pub proof fn law_a_session_is_replaced_only_once_it_has_ended(
    manager: ManagerModel,
    want: Map<Seq<char>, TargetModel>,
    lease_available: bool,
    key: Seq<char>,
)
    requires
        manager.sessions.contains_key(key),
    ensures
        ({
            let (after, start) = manager.ticked(want, lease_available);
            &&& after.sessions.contains_key(key)
            &&& after.sessions[key].id == manager.sessions[key].id
            &&& after.sessions[key].target == manager.sessions[key].target
            &&& !manager.sessions[key].running ==> !after.sessions[key].running
            &&& forall|i: int|
                0 <= i < start.len() ==> (#[trigger] start[i]).id.device_key != key
        }),
{
    lemma_starting_keeps_sessions(
        manager.settled(want),
        want,
        key_order::<String, TargetModel>(want),
        key,
    );
}

proof fn lemma_blocked_targets_do_not_start(
    manager: ManagerModel,
    want: Map<Seq<char>, TargetModel>,
    keys: Seq<Seq<char>>,
    key: Seq<char>,
)
    requires
        lookup(manager.blocked, key) == Some(want[key]),
    ensures
        manager.started(want, keys).0.blocked == manager.blocked,
        manager.started(want, keys).0.sessions.contains_key(key)
            == manager.sessions.contains_key(key),
        forall|i: int|
            0 <= i < manager.started(want, keys).1.len() ==> (#[trigger] manager.started(
                want,
                keys,
            ).1[i]).id.device_key != key,
    decreases keys.len(),
{
    if keys.len() > 0 {
        lemma_blocked_targets_do_not_start(manager, want, keys.drop_last(), key);
    }
}

/// A device that another program is in the way of is left alone until its plan
/// changes.
pub proof fn law_a_conflict_is_not_fought_over(
    manager: ManagerModel,
    want: Map<Seq<char>, TargetModel>,
    lease_available: bool,
    key: Seq<char>,
)
    requires
        want.contains_key(key),
        lookup(manager.blocked, key) == Some(want[key]),
    ensures
        ({
            let (after, start) = manager.ticked(want, lease_available);
            &&& lookup(after.blocked, key) == Some(want[key])
            &&& forall|i: int|
                0 <= i < start.len() ==> (#[trigger] start[i]).id.device_key != key
        }),
{
    lemma_blocked_targets_do_not_start(
        manager.settled(want),
        want,
        key_order::<String, TargetModel>(want),
        key,
    );
}

/// While the receivers are needed otherwise, no session starts and none is left
/// running.
pub proof fn law_pairing_gets_the_receivers_to_itself(
    manager: ManagerModel,
    plans: Seq<PlanModel>,
    monitor: MonitorModel,
    journal: Option<Map<Seq<char>, JournalState>>,
    lease_available: bool,
    key: Seq<char>,
)
    ensures
        ({
            let want = wanted(true, plans, monitor, journal);
            let (after, start) = manager.ticked(want, lease_available);
            &&& start.len() == 0
            &&& after.sessions.contains_key(key) ==> !after.sessions[key].running
        }),
{
    let want = wanted(true, plans, monitor, journal);
    let none = Seq::<Seq<char>>::empty();
    assert(is_key_order::<String, TargetModel>(none, want));
    let listed = key_order::<String, TargetModel>(want);
    assert(is_key_order::<String, TargetModel>(listed, want));
    lemma_key_order_is_unique::<String, TargetModel>(none, listed, want);
}

/// An event that does not count leaves no trace but the end of its session.
pub proof fn law_a_stale_event_does_nothing(
    manager: ManagerModel,
    session: SessionModel,
    input: InputModel,
    exclusive: bool,
    plans: Seq<PlanModel>,
    monitor: MonitorModel,
)
    requires
        manager.live(session.device_key) matches Some(live) ==> live.id != session
            || !live.running,
    ensures
        ({
            let (after, seen, command) = manager.captured(
                session,
                input,
                exclusive,
                plans,
                monitor,
            );
            &&& seen == monitor
            &&& command == (CommandModel::Cancel { session })
            &&& after.sessions == manager.sessions
            &&& after.blocked == manager.blocked
        }),
{
}

/// A session is asked to capture what its plan needs captured: the controls the
/// plan diverts, the controls whose swipes the plan binds, the wheel where it
/// does anything but what it does on its own, and the touchpad where the plan
/// says so or a client looks on and the touchpad can be put back.
pub proof fn law_a_session_captures_what_its_plan_needs(
    plan: PlanModel,
    watched: bool,
    number: u16,
)
    ensures
        ({
            let target = plan.target(watched);
            &&& target.route == plan.route
            &&& target.rearm_generation == plan.rearm_generation
            &&& target.wheel == plan.wheel()
            &&& target.spec.divert_buttons == plan.divert_buttons
            &&& target.spec.touchpad_journal_id == plan.touchpad_journal_id
            &&& target.spec.divert_gesture_sources.contains(number) <==> {
                ||| number == 195 && plan.gesture_bindings.contains_key(ButtonId::GestureButton)
                ||| number == 416 && plan.gesture_bindings.contains_key(ButtonId::HapticPanel)
            }
            &&& target.spec.capture_thumbwheel <==> plan.thumbwheel_bindings_nondefault
                || plan.thumbwheel_sensitivity != ThumbwheelSensitivity::native()
            &&& plan.capture_touchpad ==> target.spec.capture_touchpad
            &&& !plan.capture_touchpad ==> (target.spec.capture_touchpad <==> watched
                && plan.touchpad_journal_id is Some)
            &&& plan.session_mode is TouchpadRecovery && watched ==> target.spec.mode
                is TouchpadOnly
            &&& !(plan.session_mode is TouchpadRecovery && watched) ==> target.spec.mode
                == plan.session_mode
        }),
{
    let all = gesture_sources();
    let pred = swiping_source(plan);
    let number_of = |control: (u16, ButtonId)| control.0;
    let kept = all.filter(pred);
    let numbers = plan.target(watched).spec.divert_gesture_sources;
    assert(all[0] == (195u16, ButtonId::GestureButton));
    assert(all[1] == (416u16, ButtonId::HapticPanel));
    assert(numbers =~= kept.map_values(number_of));
    lemma_filter_holds(all, pred, all[0]);
    lemma_filter_holds(all, pred, all[1]);
    assert(all.contains(all[0]) && all.contains(all[1]));
    if kept.contains(all[0]) {
        assert(numbers[kept.index_of(all[0])] == 195);
    }
    if kept.contains(all[1]) {
        assert(numbers[kept.index_of(all[1])] == 416);
    }
    if numbers.contains(number) {
        let i = numbers.index_of(number);
        let control = kept[i];
        assert(kept.contains(control));
        lemma_filter_holds(all, pred, control);
        assert(control == all[0] || control == all[1]);
    }
}

proof fn lemma_wanted_is_finite(
    plans: Seq<PlanModel>,
    monitor: MonitorModel,
    journal: Option<Map<Seq<char>, JournalState>>,
)
    ensures
        wanted_by(plans, monitor, journal).dom().finite(),
    decreases plans.len(),
{
    if plans.len() > 0 {
        lemma_wanted_is_finite(plans.drop_last(), monitor, journal);
    }
}

/// Whether `i` is the last plan of its device that wants a session.
pub open spec fn last_that_wants(
    plans: Seq<PlanModel>,
    monitor: MonitorModel,
    journal: Option<Map<Seq<char>, JournalState>>,
    i: int,
) -> bool {
    &&& 0 <= i < plans.len()
    &&& wanted_target(plans[i], monitor, journal) is Some
    &&& forall|j: int|
        i < j < plans.len() && (#[trigger] plans[j]).config_key == plans[i].config_key
            ==> wanted_target(plans[j], monitor, journal) is None
}

/// A plan that only puts a touchpad back wants a session only where the touchpad
/// may have been left in raw mode; every other plan does, as it asks for it. A
/// client that looks on wants the touchpad of the device it asks for.
pub proof fn law_what_a_plan_wants(
    plan: PlanModel,
    monitor: MonitorModel,
    journal: Option<Map<Seq<char>, JournalState>>,
)
    ensures
        ({
            let watched = monitor.enabled && monitor.requested_device == Some(plan.config_key);
            let only_recovers = plan.session_mode is TouchpadRecovery && !watched;
            let left_raw = plan.touchpad_journal_id is Some && journal is Some
                && journal.unwrap().contains_key(plan.touchpad_journal_id.unwrap())
                && !(journal.unwrap()[plan.touchpad_journal_id.unwrap()] is Missing);
            &&& wanted_target(plan, monitor, journal) is Some <==> (only_recovers ==> left_raw)
            &&& wanted_target(plan, monitor, journal) matches Some(target) ==> target
                == plan.target(watched)
        }),
{
}

/// A session is wanted for each device that has a plan, as its plan asks for it,
/// and for no other.
pub proof fn law_what_sessions_are_wanted(
    plans: Seq<PlanModel>,
    monitor: MonitorModel,
    journal: Option<Map<Seq<char>, JournalState>>,
    key: Seq<char>,
)
    ensures
        ({
            let want = wanted(false, plans, monitor, journal);
            &&& want.contains_key(key) <==> exists|i: int| #[trigger]
                last_that_wants(plans, monitor, journal, i) && plans[i].config_key == key
            &&& forall|i: int|
                #[trigger] last_that_wants(plans, monitor, journal, i) && plans[i].config_key
                    == key ==> want[key] == plans[i].target(monitor.requests(key))
        }),
    decreases plans.len(),
{
    if plans.len() > 0 {
        let fewer = plans.drop_last();
        let n = plans.len() - 1;
        law_what_sessions_are_wanted(fewer, monitor, journal, key);
        assert(plans.last() == plans[n]);
        let now = wanted_target(plans[n], monitor, journal);
        let hit = now is Some && plans[n].config_key == key;
        if hit {
            assert(last_that_wants(plans, monitor, journal, n));
        }
        assert forall|i: int|
            #[trigger] last_that_wants(plans, monitor, journal, i) && plans[i].config_key == key
                && i < n implies last_that_wants(fewer, monitor, journal, i) && !hit by {
            assert(fewer[i] == plans[i]);
            assert forall|j: int|
                i < j < fewer.len() && (#[trigger] fewer[j]).config_key
                    == fewer[i].config_key implies wanted_target(fewer[j], monitor, journal)
                is None by {
                assert(fewer[j] == plans[j]);
            }
            assert(plans[n].config_key == key ==> now is None);
        }
        if !hit {
            assert forall|i: int|
                #[trigger] last_that_wants(fewer, monitor, journal, i) && fewer[i].config_key
                    == key implies last_that_wants(plans, monitor, journal, i) by {
                assert(fewer[i] == plans[i]);
                assert forall|j: int|
                    i < j < plans.len() && (#[trigger] plans[j]).config_key
                        == plans[i].config_key implies wanted_target(plans[j], monitor, journal)
                    is None by {
                    if j < n {
                        assert(fewer[j] == plans[j]);
                    }
                }
            }
        }
        let want = wanted(false, plans, monitor, journal);
        if want.contains_key(key) && !hit {
            let i = choose|i: int| #[trigger]
                last_that_wants(fewer, monitor, journal, i) && fewer[i].config_key == key;
            assert(last_that_wants(plans, monitor, journal, i));
            assert(plans[i].config_key == key);
        }
    }
}

proof fn lemma_started_sessions(
    manager: ManagerModel,
    want: Map<Seq<char>, TargetModel>,
    keys: Seq<Seq<char>>,
    key: Seq<char>,
)
    requires
        forall|i: int, j: int| 0 <= i < j < keys.len() ==> keys[i] != keys[j],
    ensures
        ({
            let (after, begun) = manager.started(want, keys);
            let begins = keys.contains(key) && starts(
                manager.sessions,
                manager.blocked,
                key,
                want[key],
            );
            &&& after.blocked == manager.blocked
            &&& after.dispatcher == manager.dispatcher
            &&& begins ==> {
                &&& after.sessions.contains_key(key)
                &&& after.sessions[key].running
                &&& after.sessions[key].target == want[key]
                &&& after.sessions[key].id.device_key == key
                &&& exists|i: int|
                    0 <= i < begun.len() && #[trigger] begun[i] == (StartModel {
                        id: after.sessions[key].id,
                        target: want[key],
                    })
            }
            &&& !begins ==> {
                &&& after.sessions.contains_key(key) == manager.sessions.contains_key(key)
                &&& manager.sessions.contains_key(key) ==> after.sessions[key]
                    == manager.sessions[key]
                &&& forall|i: int|
                    0 <= i < begun.len() ==> (#[trigger] begun[i]).id.device_key != key
            }
        }),
    decreases keys.len(),
{
    if keys.len() > 0 {
        let fewer = keys.drop_last();
        let last = keys.last();
        let n = keys.len() - 1;
        assert(keys[n] == last);
        assert forall|i: int, j: int| 0 <= i < j < fewer.len() implies fewer[i] != fewer[j] by {
            assert(fewer[i] == keys[i] && fewer[j] == keys[j]);
        }
        lemma_started_sessions(manager, want, fewer, key);
        lemma_started_sessions(manager, want, fewer, last);
        assert(keys.contains(key) <==> fewer.contains(key) || key == last) by {
            if fewer.contains(key) {
                assert(keys[fewer.index_of(key)] == key);
            }
            if keys.contains(key) && key != last {
                assert(fewer[keys.index_of(key)] == key);
            }
        }
        assert(!fewer.contains(last)) by {
            if fewer.contains(last) {
                assert(keys[fewer.index_of(last)] == keys[n]);
            }
        }
        let (before, begun) = manager.started(want, fewer);
        let (after, more) = manager.started(want, keys);
        let begins = keys.contains(key) && starts(
            manager.sessions,
            manager.blocked,
            key,
            want[key],
        );
        if begins {
            if key == last {
                assert(more[begun.len() as int] == (StartModel {
                    id: after.sessions[key].id,
                    target: want[key],
                }));
            } else {
                let i = choose|i: int|
                    0 <= i < begun.len() && #[trigger] begun[i] == (StartModel {
                        id: before.sessions[key].id,
                        target: want[key],
                    });
                assert(more[i] == begun[i]);
            }
        } else {
            assert forall|i: int| 0 <= i < more.len() implies (#[trigger] more[i]).id.device_key
                != key by {
                if i < begun.len() {
                    assert(more[i] == begun[i]);
                }
            }
        }
    }
}

/// After a look at the plans, with the channel to be had, every wanted device
/// that is not blocked and has no session gets one that captures just what is
/// wanted; no other session starts. Without the channel none starts. A session
/// that is wanted just as it is goes on; any other no longer runs.
pub proof fn law_a_look_starts_what_is_wanted(
    manager: ManagerModel,
    plans: Seq<PlanModel>,
    monitor: MonitorModel,
    journal: Option<Map<Seq<char>, JournalState>>,
    lease_available: bool,
    key: Seq<char>,
)
    ensures
        ({
            let want = wanted(false, plans, monitor, journal);
            let (after, begun) = manager.ticked(want, lease_available);
            let blocked = manager.blocked.contains_key(key) && want.contains_key(key)
                && manager.blocked[key] == want[key];
            let begins = lease_available && want.contains_key(key)
                && !manager.sessions.contains_key(key) && !blocked;
            &&& begins ==> {
                &&& after.sessions.contains_key(key)
                &&& after.sessions[key].running
                &&& after.sessions[key].target == want[key]
                &&& after.sessions[key].id.device_key == key
                &&& exists|i: int|
                    0 <= i < begun.len() && #[trigger] begun[i] == (StartModel {
                        id: after.sessions[key].id,
                        target: want[key],
                    })
            }
            &&& !begins ==> {
                &&& after.sessions.contains_key(key) == manager.sessions.contains_key(key)
                &&& forall|i: int|
                    0 <= i < begun.len() ==> (#[trigger] begun[i]).id.device_key != key
            }
            &&& manager.sessions.contains_key(key) ==> {
                &&& after.sessions[key].running <==> manager.sessions[key].running
                    && want.contains_key(key) && want[key] == manager.sessions[key].target
                &&& after.sessions[key].id == manager.sessions[key].id
                &&& after.sessions[key].target == manager.sessions[key].target
            }
            &&& after.blocked.contains_key(key) <==> blocked
        }),
{
    let want = wanted(false, plans, monitor, journal);
    lemma_wanted_is_finite(plans, monitor, journal);
    lemma_key_order_exists::<String, TargetModel>(want);
    let keys = key_order::<String, TargetModel>(want);
    assert forall|i: int, j: int| 0 <= i < j < keys.len() implies keys[i] != keys[j] by {
        <String as OrderedKey>::before_irreflexive(keys[i]);
    }
    assert(keys.contains(key) <==> want.contains_key(key)) by {
        if keys.contains(key) {
            assert(want.contains_key(keys[keys.index_of(key)]));
        }
    }
    let settled = manager.settled(want);
    lemma_started_sessions(settled, want, keys, key);
}

proof fn lemma_what_is_stopped(
    sessions: Map<Seq<char>, RunningModel>,
    want: Map<Seq<char>, TargetModel>,
    keys: Seq<Seq<char>>,
    id: SessionModel,
)
    ensures
        to_stop(sessions, want, keys).contains(id) <==> exists|i: int|
            0 <= i < keys.len() && sessions[#[trigger] keys[i]].id == id
                && sessions[keys[i]].running && !(want.contains_key(keys[i]) && want[keys[i]]
                == sessions[keys[i]].target),
    decreases keys.len(),
{
    if keys.len() > 0 {
        let fewer = keys.drop_last();
        let n = keys.len() - 1;
        lemma_what_is_stopped(sessions, want, fewer, id);
        let before = to_stop(sessions, want, fewer);
        let after = to_stop(sessions, want, keys);
        assert(keys[n] == keys.last());
        if before.contains(id) {
            assert(after[before.index_of(id)] == id);
            let i = choose|i: int|
                0 <= i < fewer.len() && sessions[#[trigger] fewer[i]].id == id
                    && sessions[fewer[i]].running && !(want.contains_key(fewer[i])
                    && want[fewer[i]] == sessions[fewer[i]].target);
            assert(keys[i] == fewer[i]);
        }
        let session = sessions[keys[n]];
        if session.running && !(want.contains_key(keys[n]) && want[keys[n]] == session.target) {
            assert(after == before.push(session.id));
            assert(after[before.len() as int] == session.id);
            if after.contains(id) && id != session.id {
                assert(before[after.index_of(id)] == id);
            }
        }
        if exists|i: int|
            0 <= i < keys.len() && sessions[#[trigger] keys[i]].id == id
                && sessions[keys[i]].running && !(want.contains_key(keys[i]) && want[keys[i]]
                == sessions[keys[i]].target) {
            let i = choose|i: int|
                0 <= i < keys.len() && sessions[#[trigger] keys[i]].id == id
                    && sessions[keys[i]].running && !(want.contains_key(keys[i])
                    && want[keys[i]] == sessions[keys[i]].target);
            if i < n {
                assert(fewer[i] == keys[i]);
            }
        }
    }
}

/// Exactly the running sessions that are no longer wanted as they are, are told
/// to stop.
pub proof fn law_what_is_no_longer_wanted_is_stopped(
    manager: ManagerModel,
    want: Map<Seq<char>, TargetModel>,
    id: SessionModel,
)
    requires
        manager.sessions.dom().finite(),
    ensures
        manager.stops(want).contains(id) <==> exists|key: Seq<char>| #[trigger]
            manager.sessions.contains_key(key) && manager.sessions[key].id == id
                && manager.sessions[key].running && !(want.contains_key(key) && want[key]
                == manager.sessions[key].target),
{
    lemma_key_order_exists::<String, RunningModel>(manager.sessions);
    let keys = key_order::<String, RunningModel>(manager.sessions);
    lemma_what_is_stopped(manager.sessions, want, keys, id);
    if manager.stops(want).contains(id) {
        let i = choose|i: int|
            0 <= i < keys.len() && manager.sessions[#[trigger] keys[i]].id == id
                && manager.sessions[keys[i]].running && !(want.contains_key(keys[i])
                && want[keys[i]] == manager.sessions[keys[i]].target);
        assert(manager.sessions.contains_key(keys[i]));
    }
    if exists|key: Seq<char>| #[trigger]
        manager.sessions.contains_key(key) && manager.sessions[key].id == id
            && manager.sessions[key].running && !(want.contains_key(key) && want[key]
            == manager.sessions[key].target) {
        let key = choose|key: Seq<char>| #[trigger]
            manager.sessions.contains_key(key) && manager.sessions[key].id == id
                && manager.sessions[key].running && !(want.contains_key(key) && want[key]
                == manager.sessions[key].target);
        assert(keys.contains(key));
        assert(keys[keys.index_of(key)] == key);
    }
}

/// An event of the running session of a device, whose plan still asks for what
/// the session captures, is shown to whoever looks on and does what the device's
/// plan says; touchpad triggers act where the plan captures the touchpad.
pub proof fn law_an_event_does_what_its_plan_says(
    manager: ManagerModel,
    session: SessionModel,
    input: InputModel,
    plans: Seq<PlanModel>,
    monitor: MonitorModel,
)
    requires
        manager.sessions.contains_key(session.device_key),
        manager.sessions[session.device_key].id == session,
        manager.sessions[session.device_key].running,
        plan_of(plans, session.device_key) is Some,
        plan_of(plans, session.device_key).unwrap().target(monitor.requests(session.device_key))
            == manager.sessions[session.device_key].target,
    ensures
        ({
            let plan = plan_of(plans, session.device_key).unwrap();
            let (after, seen, command) = manager.captured(session, input, false, plans, monitor);
            let (dispatcher, asked) = manager.dispatcher.step(
                session,
                input,
                Some(plan),
                plan.capture_touchpad,
            );
            &&& command == asked
            &&& after.dispatcher == dispatcher
            &&& after.sessions == manager.sessions
            &&& after.blocked == manager.blocked
            &&& seen == monitor.recorded(session.device_key, input)
            &&& manager.captured(session, input, true, plans, monitor).2 == (
            CommandModel::Cancel { session })
        }),
{
}

/// The end of the session of a device makes way for another, unless another
/// program was found in the way: then just what was captured is blocked, and
/// whoever looks on is told what was expected and found. It is worth a word
/// where nobody asked for it; a touchpad that was put back ends on its own.
pub proof fn law_a_sessions_end_makes_way(
    manager: ManagerModel,
    session: SessionModel,
    error: Option<SessionError>,
    monitor: MonitorModel,
    other: Seq<char>,
)
    ensures
        ({
            let key = session.device_key;
            let (after, seen, report) = manager.ended(session, error, monitor);
            let its_own = manager.sessions.contains_key(key) && manager.sessions[key].id
                == session;
            &&& !its_own ==> after == manager && seen == monitor && report is Stale
            &&& its_own ==> {
                let ended = manager.sessions[key];
                &&& !after.sessions.contains_key(key)
                &&& after.dispatcher == manager.dispatcher.without_session(session)
                &&& error matches Some(SessionError::TouchpadRawModeConflict { expected, actual })
                    ==> {
                    &&& after.blocked.contains_key(key) && after.blocked[key] == ended.target
                    &&& seen.conflicts.contains_key(key) && seen.conflicts[key] == (
                    ConflictModel { device_key: key, expected, actual })
                    &&& report == (DoneReport::Conflict { expected, actual })
                }
                &&& !(error matches Some(SessionError::TouchpadRawModeConflict { .. })) ==> {
                    &&& after.blocked == manager.blocked
                    &&& seen == monitor
                    &&& report is Unexpected <==> ended.running && (error is Some
                        || !(ended.target.spec.mode is TouchpadRecovery))
                    &&& report is Unexpected || report is Settled
                }
            }
            &&& other != key ==> {
                &&& after.sessions.contains_key(other) == manager.sessions.contains_key(other)
                &&& manager.sessions.contains_key(other) ==> after.sessions[other]
                    == manager.sessions[other]
                &&& after.blocked.contains_key(other) == manager.blocked.contains_key(other)
            }
        }),
{
}

/// Sessions are numbered one after the other as they are started, so that no two
/// share a number as long as there are numbers.
pub proof fn law_each_session_has_its_own_number(
    manager: ManagerModel,
    want: Map<Seq<char>, TargetModel>,
    keys: Seq<Seq<char>>,
)
    requires
        manager.next_epoch + keys.len() <= u64::MAX,
    ensures
        ({
            let (after, begun) = manager.started(want, keys);
            &&& begun.len() <= keys.len()
            &&& after.next_epoch == manager.next_epoch + begun.len()
            &&& forall|i: int|
                0 <= i < begun.len() ==> (#[trigger] begun[i]).id.epoch == manager.next_epoch + i
        }),
    decreases keys.len(),
{
    if keys.len() > 0 {
        law_each_session_has_its_own_number(manager, want, keys.drop_last());
    }
}

/// An event of a session that is not the one that runs for its device, or whose
/// plan is gone or asks for something else, does nothing but call off what the
/// session began; whoever looks on sees nothing of it, and no other session is
/// touched.
pub proof fn law_a_stale_event_leaves_nothing_behind(
    manager: ManagerModel,
    session: SessionModel,
    input: InputModel,
    exclusive: bool,
    plans: Seq<PlanModel>,
    monitor: MonitorModel,
    other: SessionModel,
)
    requires
        ({
            let key = session.device_key;
            ||| exclusive
            ||| !manager.sessions.contains_key(key)
            ||| manager.sessions[key].id != session
            ||| !manager.sessions[key].running
            ||| plan_of(plans, key) is None
            ||| plan_of(plans, key).unwrap().target(monitor.requests(key))
                != manager.sessions[key].target
        }),
    ensures
        ({
            let (after, seen, command) = manager.captured(
                session,
                input,
                exclusive,
                plans,
                monitor,
            );
            &&& command == (CommandModel::Cancel { session })
            &&& seen == monitor
            &&& after.sessions == manager.sessions && after.blocked == manager.blocked
            &&& !after.dispatcher.wheels.contains_key(session)
            &&& !after.dispatcher.presses.contains_key(session)
            &&& !after.dispatcher.touchpads.contains_key(session)
            &&& other != session ==> {
                &&& lookup(after.dispatcher.wheels, other) == lookup(
                    manager.dispatcher.wheels,
                    other,
                )
                &&& lookup(after.dispatcher.presses, other) == lookup(
                    manager.dispatcher.presses,
                    other,
                )
                &&& lookup(after.dispatcher.touchpads, other) == lookup(
                    manager.dispatcher.touchpads,
                    other,
                )
            }
        }),
{
}

}
