//! Which keyboard is captured, and what its keys do.
//!
//! One session runs at a time. As with other devices, another starts only once
//! it has ended.

use vstd::prelude::*;

use crate::agent::dispatch::{lookup, Command, CommandModel};
use crate::agent::input::{CapturedInput, InputModel};
use crate::agent::session::{
    accepts, done_action, DoneAction, HidppSessionId, SessionModel,
};
use crate::binding::button::ButtonId;
use crate::binding::shape::{Binding, BindingModel};
use crate::device::{DeviceRoute, RouteModel};
use crate::ordered::{
    is_key_order, opt, KeyOrder, OrderedKey, OrderedMap, Replicate,
    Same,
};

verus! {

impl Replicate for u16 {
    fn replicate(&self) -> (copy: Self) {
        *self
    }
}

impl OrderedKey for u16 {
    type Probe = u16;

    open spec fn before(a: u16, b: u16) -> bool {
        a < b
    }

    proof fn before_irreflexive(a: u16) {
    }

    proof fn before_transitive(a: u16, b: u16, c: u16) {
    }

    proof fn before_total(a: u16, b: u16) {
    }

    fn order_against(&self, probe: &u16) -> (order: KeyOrder) {
        if *self < *probe {
            KeyOrder::Before
        } else if *self == *probe {
            KeyOrder::Same
        } else {
            KeyOrder::After
        }
    }

    fn as_probe(&self) -> (probe: &u16) {
        self
    }
}

/// Everything needed to capture one keyboard.
#[derive(Debug, PartialEq, Eq)]
pub struct KeyboardSpec {
    /// The key the keyboard's settings are kept under.
    pub config_key: String,
    /// How the keyboard is reached.
    pub route: DeviceRoute,
    /// The controls to divert.
    pub wanted: OrderedMap<u16, ButtonId>,
    /// What each key does.
    pub bindings: OrderedMap<ButtonId, Binding>,
}

/// The model of a [`KeyboardSpec`].
pub ghost struct KeyboardSpecModel {
    pub config_key: Seq<char>,
    pub route: RouteModel,
    pub wanted: Map<u16, ButtonId>,
    pub bindings: Map<ButtonId, BindingModel>,
}

/// What a keyboard session captures: what keys do may change without starting
/// it over.
#[derive(Debug, PartialEq, Eq)]
pub struct KeyboardTarget {
    pub config_key: String,
    pub route: DeviceRoute,
    pub wanted: OrderedMap<u16, ButtonId>,
}

/// The model of a [`KeyboardTarget`].
#[verifier::ext_equal]
pub ghost struct KeyboardTargetModel {
    pub config_key: Seq<char>,
    pub route: RouteModel,
    pub wanted: Map<u16, ButtonId>,
}

impl View for KeyboardSpec {
    type V = KeyboardSpecModel;

    open spec fn view(&self) -> KeyboardSpecModel {
        KeyboardSpecModel {
            config_key: self.config_key@,
            route: self.route@,
            wanted: self.wanted@,
            bindings: self.bindings@,
        }
    }
}

impl View for KeyboardTarget {
    type V = KeyboardTargetModel;

    open spec fn view(&self) -> KeyboardTargetModel {
        KeyboardTargetModel {
            config_key: self.config_key@,
            route: self.route@,
            wanted: self.wanted@,
        }
    }
}

impl KeyboardSpecModel {
    /// What a session captures by this.
    pub open spec fn target(self) -> KeyboardTargetModel {
        KeyboardTargetModel {
            config_key: self.config_key,
            route: self.route,
            wanted: self.wanted,
        }
    }
}

fn same_controls(a: &OrderedMap<u16, ButtonId>, b: &OrderedMap<u16, ButtonId>) -> (same: bool)
    ensures
        same == (a@ == b@),
{
    let n: usize = a.len();
    let m: usize = b.len();
    let mut i: usize = 0;
    while i < n
        invariant
            n == a.order().len(),
            i <= n,
            is_key_order::<u16, ButtonId>(a.order(), a@),
            forall|j: int|
                0 <= j < i ==> b@.contains_key(#[trigger] a.order()[j]) && b@[a.order()[j]]
                    == a@[a.order()[j]],
        decreases n - i,
    {
        let same: bool = match b.get(a.key_at(i)) {
            Some(button) => *button == *a.value_at(i),
            None => false,
        };
        if !same {
            return false;
        }
        i += 1;
    }
    proof {
        assert forall|k: u16| #[trigger] a@.contains_key(k) implies b@.contains_key(k) && b@[k]
            == a@[k] by {
            assert(a.order().contains(k));
            assert(a.order()[a.order().index_of(k)] == k);
        }
    }
    let mut i: usize = 0;
    while i < m
        invariant
            m == b.order().len(),
            i <= m,
            is_key_order::<u16, ButtonId>(b.order(), b@),
            forall|k: u16| #[trigger]
                a@.contains_key(k) ==> b@.contains_key(k) && b@[k] == a@[k],
            forall|j: int| 0 <= j < i ==> a@.contains_key(#[trigger] b.order()[j]),
        decreases m - i,
    {
        if !a.contains_key(b.key_at(i)) {
            return false;
        }
        i += 1;
    }
    proof {
        assert forall|k: u16| #[trigger] b@.contains_key(k) implies a@.contains_key(k) by {
            assert(b.order().contains(k));
            assert(b.order()[b.order().index_of(k)] == k);
        }
        assert(a@ =~= b@);
    }
    true
}

impl Replicate for KeyboardTarget {
    fn replicate(&self) -> (copy: Self) {
        KeyboardTarget {
            config_key: self.config_key.replicate(),
            route: self.route.replicate(),
            wanted: self.wanted.replicate(),
        }
    }
}

impl Same for KeyboardTarget {
    fn same(&self, other: &Self) -> (same: bool) {
        self.config_key.same(&other.config_key) && self.route.same(&other.route) && same_controls(
            &self.wanted,
            &other.wanted,
        )
    }
}

impl KeyboardTarget {
    /// What a session captures by a spec.
    pub fn for_spec(spec: &KeyboardSpec) -> (target: KeyboardTarget)
        ensures
            target@ == spec@.target(),
    {
        KeyboardTarget {
            config_key: spec.config_key.replicate(),
            route: spec.route.replicate(),
            wanted: spec.wanted.replicate(),
        }
    }

    /// Whether a spec asks for just this.
    pub fn matches(&self, spec: &KeyboardSpec) -> (yes: bool)
        ensures
            yes == (self@ == spec@.target()),
    {
        self.config_key.same(&spec.config_key) && self.route.same(&spec.route) && same_controls(
            &self.wanted,
            &spec.wanted,
        )
    }
}

/// A keyboard session that has not ended.
#[derive(Debug, PartialEq, Eq)]
pub struct RunningKeyboardSession {
    pub id: HidppSessionId,
    pub target: KeyboardTarget,
    /// Whether it was left running.
    pub running: bool,
}

/// The model of a [`RunningKeyboardSession`].
pub ghost struct RunningKeyboardModel {
    pub id: SessionModel,
    pub target: KeyboardTargetModel,
    pub running: bool,
}

impl View for RunningKeyboardSession {
    type V = RunningKeyboardModel;

    open spec fn view(&self) -> RunningKeyboardModel {
        RunningKeyboardModel { id: self.id@, target: self.target@, running: self.running }
    }
}

/// A session as far as its events and its end go.
pub open spec fn life(session: Option<RunningKeyboardModel>) -> Option<(SessionModel, bool)> {
    match session {
        Some(session) => Some((session.id, session.running)),
        None => None,
    }
}

/// The model of an optional session.
pub open spec fn opt_session(session: Option<&RunningKeyboardSession>) -> Option<
    RunningKeyboardModel,
> {
    match session {
        Some(session) => Some(session@),
        None => None,
    }
}

/// The model of an optional spec.
pub open spec fn opt_spec(spec: Option<&KeyboardSpec>) -> Option<KeyboardSpecModel> {
    match spec {
        Some(spec) => Some(spec@),
        None => None,
    }
}

/// What a session's end means.
pub fn on_done(
    done_session: &HidppSessionId,
    live: Option<&RunningKeyboardSession>,
) -> (action: DoneAction)
    ensures
        action == done_action(done_session@, life(opt_session(live))),
{
    match live {
        Some(session) => if session.id.same(done_session) {
            DoneAction::Remove { unexpected: session.running }
        } else {
            DoneAction::Ignore
        },
        None => DoneAction::Ignore,
    }
}

/// Whether an event of a session counts.
pub fn accepts_input(
    input_session: &HidppSessionId,
    live: Option<&RunningKeyboardSession>,
) -> (yes: bool)
    ensures
        yes == accepts(input_session@, life(opt_session(live))),
{
    match live {
        Some(session) => session.running && session.id.same(input_session),
        None => false,
    }
}

/// What an event of a keyboard asks for.
pub open spec fn key_command(
    session: SessionModel,
    input: InputModel,
    bindings: Map<ButtonId, BindingModel>,
) -> CommandModel {
    match input {
        InputModel::ButtonDown(button) => CommandModel::ButtonDown {
            session,
            button,
            binding: lookup(bindings, button),
            swipes: false,
        },
        InputModel::ButtonUp(button) => CommandModel::ButtonUp { session, button },
        InputModel::ButtonPulse(button) => CommandModel::ButtonPulse {
            session,
            button,
            binding: lookup(bindings, button),
        },
        _ => CommandModel::Rest,
    }
}

fn binding_of(spec: &KeyboardSpec, button: ButtonId) -> (binding: Option<Binding>)
    ensures
        opt(binding) == lookup(spec@.bindings, button),
{
    match spec.bindings.get(&button) {
        Some(binding) => Some(binding.replicate()),
        None => None,
    }
}

/// What an event of a keyboard asks for.
pub fn dispatch_input(
    session: &HidppSessionId,
    input: &CapturedInput,
    spec: &KeyboardSpec,
) -> (command: Command)
    ensures
        command@ == key_command(session@, input@, spec@.bindings),
{
    match input {
        CapturedInput::ButtonDown(button) => Command::ButtonDown {
            session: session.replicate(),
            button: *button,
            binding: binding_of(spec, *button),
            swipes: false,
        },
        CapturedInput::ButtonUp(button) => Command::ButtonUp {
            session: session.replicate(),
            button: *button,
        },
        CapturedInput::ButtonPulse(button) => Command::ButtonPulse {
            session: session.replicate(),
            button: *button,
            binding: binding_of(spec, *button),
        },
        _ => Command::Rest,
    }
}

/// What should be captured; nothing while the receivers are needed otherwise.
pub open spec fn wanted(exclusive: bool, spec: Option<KeyboardSpecModel>) -> Option<
    KeyboardTargetModel,
> {
    match spec {
        Some(spec) => if exclusive {
            None
        } else {
            Some(spec.target())
        },
        None => None,
    }
}

/// What should be captured.
pub fn wanted_session(exclusive_requested: bool, spec: Option<&KeyboardSpec>) -> (target: Option<
    KeyboardTarget,
>)
    ensures
        opt(target) == wanted(exclusive_requested, opt_spec(spec)),
{
    if exclusive_requested {
        return None;
    }
    match spec {
        Some(spec) => Some(KeyboardTarget::for_spec(spec)),
        None => None,
    }
}

/// What one look at the keyboard leads to.
#[derive(Debug, PartialEq, Eq)]
pub enum KeyboardTick {
    /// Everything is as it should be.
    Keep,
    /// The session is to stop.
    Stop(HidppSessionId),
    /// A session is to start.
    Start(HidppSessionId),
}

/// The model of a [`KeyboardTick`].
pub ghost enum KeyboardTickModel {
    Keep,
    Stop(SessionModel),
    Start(SessionModel),
}

impl View for KeyboardTick {
    type V = KeyboardTickModel;

    open spec fn view(&self) -> KeyboardTickModel {
        match self {
            KeyboardTick::Keep => KeyboardTickModel::Keep,
            KeyboardTick::Stop(id) => KeyboardTickModel::Stop(id@),
            KeyboardTick::Start(id) => KeyboardTickModel::Start(id@),
        }
    }
}

/// Who runs the keyboard session.
pub struct KeyboardManager {
    /// The session that has not ended.
    pub current: Option<RunningKeyboardSession>,
    /// What tells the next session from those before.
    pub next_epoch: u64,
}

/// The model of a [`KeyboardManager`].
pub ghost struct KeyboardManagerModel {
    pub current: Option<RunningKeyboardModel>,
    pub next_epoch: u64,
}

impl View for KeyboardManager {
    type V = KeyboardManagerModel;

    open spec fn view(&self) -> KeyboardManagerModel {
        KeyboardManagerModel { current: opt(self.current), next_epoch: self.next_epoch }
    }
}

impl KeyboardManagerModel {
    /// What one look at the keyboard leads to.
    pub open spec fn ticked(
        self,
        want: Option<KeyboardTargetModel>,
        lease_available: bool,
    ) -> (KeyboardManagerModel, KeyboardTickModel) {
        match (self.current, want) {
            (Some(running), _) => if running.running && want != Some(running.target) {
                (
                    KeyboardManagerModel {
                        current: Some(RunningKeyboardModel { running: false, ..running }),
                        ..self
                    },
                    KeyboardTickModel::Stop(running.id),
                )
            } else {
                (self, KeyboardTickModel::Keep)
            },
            (None, Some(target)) => if lease_available {
                let id = SessionModel { device_key: target.config_key, epoch: self.next_epoch };
                (
                    KeyboardManagerModel {
                        current: Some(RunningKeyboardModel { id, target, running: true }),
                        next_epoch: self.next_epoch.wrapping_add(1),
                    },
                    KeyboardTickModel::Start(id),
                )
            } else {
                (self, KeyboardTickModel::Keep)
            },
            (None, None) => (self, KeyboardTickModel::Keep),
        }
    }

    /// What an event asks for: one that does not count drops its session.
    pub open spec fn captured(
        self,
        session: SessionModel,
        input: InputModel,
        exclusive: bool,
        spec: Option<KeyboardSpecModel>,
    ) -> CommandModel {
        match spec {
            Some(live) => if accepts(session, life(self.current)) && !exclusive
                && self.current.unwrap().target == live.target() {
                key_command(session, input, live.bindings)
            } else {
                CommandModel::Cancel { session }
            },
            None => CommandModel::Cancel { session },
        }
    }

    /// What a session's end leads to.
    pub open spec fn ended(self, session: SessionModel) -> (KeyboardManagerModel, DoneAction) {
        let action = done_action(session, life(self.current));
        match action {
            DoneAction::Ignore => (self, action),
            DoneAction::Remove { unexpected } => (
                KeyboardManagerModel { current: None, ..self },
                action,
            ),
        }
    }
}

impl Default for KeyboardManager {
    fn default() -> (manager: Self)
        ensures
            manager@ == (KeyboardManagerModel { current: None, next_epoch: 0 }),
    {
        KeyboardManager { current: None, next_epoch: 0 }
    }
}

impl KeyboardManager {
    fn live(&self) -> (session: Option<&RunningKeyboardSession>)
        ensures
            opt_session(session) == self@.current,
    {
        match &self.current {
            Some(session) => Some(session),
            None => None,
        }
    }

    /// Look at what should be captured, and say whether to stop or to start.
    pub fn tick(
        &mut self,
        exclusive_requested: bool,
        spec: Option<&KeyboardSpec>,
        lease_available: bool,
    ) -> (tick: KeyboardTick)
        ensures
            (final(self)@, tick@) == old(self)@.ticked(
                wanted(exclusive_requested, opt_spec(spec)),
                lease_available,
            ),
    {
        let want = wanted_session(exclusive_requested, spec);
        let mut current: Option<RunningKeyboardSession> = None;
        std::mem::swap(&mut current, &mut self.current);
        match current {
            Some(running) => {
                let mut running = running;
                let keep: bool = match &want {
                    Some(target) => target.same(&running.target),
                    None => false,
                };
                let tick = if !keep && running.running {
                    running.running = false;
                    KeyboardTick::Stop(running.id.replicate())
                } else {
                    KeyboardTick::Keep
                };
                self.current = Some(running);
                tick
            },
            None => match want {
                Some(target) => {
                    if !lease_available {
                        return KeyboardTick::Keep;
                    }
                    let id = HidppSessionId::with_epoch(
                        target.config_key.as_str(),
                        self.next_epoch,
                    );
                    self.next_epoch = self.next_epoch.wrapping_add(1);
                    self.current = Some(
                        RunningKeyboardSession { id: id.replicate(), target, running: true },
                    );
                    KeyboardTick::Start(id)
                },
                None => KeyboardTick::Keep,
            },
        }
    }

    /// What one event of a session asks for.
    pub fn handle_input(
        &self,
        session: &HidppSessionId,
        input: &CapturedInput,
        exclusive_requested: bool,
        spec: Option<&KeyboardSpec>,
    ) -> (command: Command)
        ensures
            command@ == self@.captured(session@, input@, exclusive_requested, opt_spec(spec)),
    {
        if accepts_input(session, self.live()) && !exclusive_requested {
            if let (Some(running), Some(spec)) = (self.live(), spec) {
                if running.target.matches(spec) {
                    return dispatch_input(session, input, spec);
                }
            }
        }
        Command::Cancel { session: session.replicate() }
    }

    /// Take in that a session ended.
    pub fn handle_done(&mut self, session: &HidppSessionId) -> (action: DoneAction)
        ensures
            (final(self)@, action) == old(self)@.ended(session@),
    {
        let action = on_done(session, self.live());
        if action != DoneAction::Ignore {
            self.current = None;
        }
        action
    }
}

/// A keyboard whose session has not ended gets no other, whatever is wanted.
pub proof fn law_a_keyboard_session_is_replaced_only_once_it_has_ended(
    manager: KeyboardManagerModel,
    want: Option<KeyboardTargetModel>,
    lease_available: bool,
)
    requires
        manager.current is Some,
    ensures
        manager.ticked(want, lease_available).0.current matches Some(after) && after.id
            == manager.current.unwrap().id,
        !(manager.ticked(want, lease_available).1 is Start),
{
}

/// What keys do may change without starting the session over.
pub proof fn law_rebinding_keeps_the_session(
    manager: KeyboardManagerModel,
    spec: KeyboardSpecModel,
    bindings: Map<ButtonId, BindingModel>,
    lease_available: bool,
)
    requires
        manager.current matches Some(running) && running.target == spec.target(),
    ensures
        manager.ticked(
            wanted(false, Some(KeyboardSpecModel { bindings, ..spec })),
            lease_available,
        ) == (manager, KeyboardTickModel::Keep),
{
}

/// A key does what its own binding says: one that goes down or is pulsed carries
/// the binding of that key, and one that goes up is told so. Nothing else that
/// is captured does anything on a keyboard.
pub proof fn law_a_key_does_what_it_is_bound_to(
    manager: KeyboardManagerModel,
    session: SessionModel,
    input: InputModel,
    spec: KeyboardSpecModel,
)
    requires
        manager.current matches Some(running) && running.id == session && running.running
            && running.target == spec.target(),
    ensures
        ({
            let command = manager.captured(session, input, false, Some(spec));
            &&& input matches InputModel::ButtonDown(key) ==> (command
                matches CommandModel::ButtonDown { session: by, button, binding, swipes } && by
                == session && button == key && !swipes && (binding is Some
                <==> spec.bindings.contains_key(key)) && (spec.bindings.contains_key(key)
                ==> binding == Some(spec.bindings[key])))
            &&& input matches InputModel::ButtonPulse(key) ==> (command
                matches CommandModel::ButtonPulse { session: by, button, binding } && by
                == session && button == key && (binding is Some <==> spec.bindings.contains_key(
                key,
            )) && (spec.bindings.contains_key(key) ==> binding == Some(spec.bindings[key])))
            &&& input matches InputModel::ButtonUp(key) ==> command == (
            CommandModel::ButtonUp { session, button: key })
            &&& !(input is ButtonDown || input is ButtonPulse || input is ButtonUp)
                ==> command is Rest
        }),
{
}

/// An event counts only where it is of the session that runs, nobody needs the
/// receivers otherwise, and the keyboard is still to be captured as it is.
pub proof fn law_a_stale_key_is_dropped(
    manager: KeyboardManagerModel,
    session: SessionModel,
    input: InputModel,
    exclusive: bool,
    spec: Option<KeyboardSpecModel>,
)
    requires
        exclusive || spec is None || manager.current is None || manager.current.unwrap().id
            != session || !manager.current.unwrap().running || manager.current.unwrap().target
            != spec.unwrap().target(),
    ensures
        manager.captured(session, input, exclusive, spec) == (CommandModel::Cancel { session }),
{
}

/// A session starts where one is wanted, none runs and the channel is to be had;
/// it captures just what is wanted, and has a number of its own. A session that
/// is no longer wanted as it is is told to stop, once. Nothing is wanted while
/// the receivers are needed otherwise. Its end makes way for another.
pub proof fn law_a_keyboard_is_captured_as_wanted(
    manager: KeyboardManagerModel,
    spec: Option<KeyboardSpecModel>,
    exclusive: bool,
    lease_available: bool,
    session: SessionModel,
)
    ensures
        ({
            let want = wanted(exclusive, spec);
            let (after, tick) = manager.ticked(want, lease_available);
            &&& want is Some <==> !exclusive && spec is Some
            &&& want matches Some(target) ==> {
                &&& target.config_key == spec.unwrap().config_key
                &&& target.route == spec.unwrap().route
                &&& target.wanted == spec.unwrap().wanted
            }
            &&& tick is Start <==> manager.current is None && want is Some && lease_available
            &&& tick matches KeyboardTickModel::Start(id) ==> {
                &&& id.device_key == want.unwrap().config_key
                &&& id.epoch == manager.next_epoch
                &&& after.next_epoch != manager.next_epoch
                &&& after.current == Some(
                    RunningKeyboardModel { id, target: want.unwrap(), running: true },
                )
            }
            &&& tick is Stop <==> manager.current is Some && manager.current.unwrap().running
                && want != Some(manager.current.unwrap().target)
            &&& tick matches KeyboardTickModel::Stop(id) ==> {
                &&& id == manager.current.unwrap().id
                &&& after.current is Some && !after.current.unwrap().running
                &&& after.current.unwrap().target == manager.current.unwrap().target
            }
            &&& tick is Keep ==> after == manager
        }),
        ({
            let (after, action) = manager.ended(session);
            let its_own = manager.current is Some && manager.current.unwrap().id == session;
            &&& its_own ==> after.current is None && action == (DoneAction::Remove {
                unexpected: manager.current.unwrap().running,
            })
            &&& !its_own ==> after == manager && action is Ignore
        }),
{
}

}
