//! Capture sessions and what tells one from another.

use vstd::prelude::*;
use vstd::string::StrSliceExecFns;

use crate::ordered::{KeyOrder, OrderedKey, Replicate, Same};
use crate::text::text_before;

verus! {

/// One run of a capture session on one device.
///
/// A device's sessions are told apart by their epochs.
#[derive(Debug, PartialEq, Eq)]
pub struct HidppSessionId {
    device_key: String,
    epoch: u64,
}

/// The model of a [`HidppSessionId`].
pub ghost struct SessionModel {
    pub device_key: Seq<char>,
    pub epoch: u64,
}

impl View for HidppSessionId {
    type V = SessionModel;

    closed spec fn view(&self) -> SessionModel {
        SessionModel { device_key: self.device_key@, epoch: self.epoch }
    }
}

impl HidppSessionId {
    /// The session of a device that began with `epoch`.
    pub fn with_epoch(device_key: &str, epoch: u64) -> (id: HidppSessionId)
        ensures
            id@ == (SessionModel { device_key: device_key@, epoch }),
    {
        HidppSessionId { device_key: device_key.to_owned(), epoch }
    }

    /// The key of the device.
    pub fn device_key(&self) -> (key: &str)
        ensures
            key@ == self@.device_key,
    {
        self.device_key.as_str()
    }

    /// What tells this session from the device's others.
    pub fn epoch(&self) -> (epoch: u64)
        ensures
            epoch == self@.epoch,
    {
        self.epoch
    }
}

impl Replicate for HidppSessionId {
    fn replicate(&self) -> (copy: Self) {
        HidppSessionId { device_key: self.device_key.replicate(), epoch: self.epoch }
    }
}

impl Clone for HidppSessionId {
    fn clone(&self) -> (copy: Self)
        ensures
            copy@ == self@,
    {
        self.replicate()
    }
}

impl Same for HidppSessionId {
    fn same(&self, other: &Self) -> (same: bool) {
        self.epoch == other.epoch && self.device_key.same(&other.device_key)
    }
}

impl OrderedKey for HidppSessionId {
    type Probe = HidppSessionId;

    open spec fn before(a: SessionModel, b: SessionModel) -> bool {
        text_before(a.device_key, b.device_key) || (a.device_key == b.device_key && a.epoch
            < b.epoch)
    }

    proof fn before_irreflexive(a: SessionModel) {
        String::before_irreflexive(a.device_key);
    }

    proof fn before_transitive(a: SessionModel, b: SessionModel, c: SessionModel) {
        if text_before(a.device_key, b.device_key) && text_before(b.device_key, c.device_key) {
            String::before_transitive(a.device_key, b.device_key, c.device_key);
        }
    }

    proof fn before_total(a: SessionModel, b: SessionModel) {
        String::before_total(a.device_key, b.device_key);
    }

    fn order_against(&self, probe: &HidppSessionId) -> (order: KeyOrder) {
        match self.device_key.order_against(probe.device_key.as_str()) {
            KeyOrder::Before => KeyOrder::Before,
            KeyOrder::After => KeyOrder::After,
            KeyOrder::Same => if self.epoch < probe.epoch {
                KeyOrder::Before
            } else if self.epoch == probe.epoch {
                KeyOrder::Same
            } else {
                KeyOrder::After
            },
        }
    }

    fn as_probe(&self) -> (probe: &HidppSessionId) {
        self
    }
}

/// What a session's end means to whoever runs the sessions.
#[derive(Clone, Copy, Debug, PartialEq, Eq, Structural)]
pub enum DoneAction {
    /// The session is not the one that is run now.
    Ignore,
    /// The session is over, and another may start.
    Remove {
        /// Whether the session ended without being told to.
        unexpected: bool,
    },
}

/// What the end of `done` means, where `live` is the session that is run now and
/// whether it was left running.
pub open spec fn done_action(done: SessionModel, live: Option<(SessionModel, bool)>) -> DoneAction {
    match live {
        Some((id, running)) => if id == done {
            DoneAction::Remove { unexpected: running }
        } else {
            DoneAction::Ignore
        },
        None => DoneAction::Ignore,
    }
}

/// Whether an event of `input` counts, where `live` is the session that is run
/// now and whether it was left running.
pub open spec fn accepts(input: SessionModel, live: Option<(SessionModel, bool)>) -> bool {
    live matches Some((id, running)) && id == input && running
}

/// An event of a session that was replaced, or told to stop, never counts, and
/// the end of a session that was replaced changes nothing.
pub proof fn law_a_replaced_session_is_ignored(
    old_session: SessionModel,
    live: SessionModel,
    running: bool,
)
    requires
        old_session != live,
    ensures
        !accepts(old_session, Some((live, running))),
        !accepts(live, Some((live, false))),
        done_action(old_session, Some((live, running))) == DoneAction::Ignore,
{
}

/// An event of the session that runs counts, and its end makes way for another;
/// it is told whether anybody asked for it.
pub proof fn law_the_current_session_counts(live: SessionModel, running: bool)
    ensures
        accepts(live, Some((live, running))) <==> running,
        done_action(live, Some((live, running))) == (DoneAction::Remove { unexpected: running }),
        !accepts(live, None),
        done_action(live, None) is Ignore,
{
}

}
