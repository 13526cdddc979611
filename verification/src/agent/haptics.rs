//! How long and how often feedback is tried.
//!
//! At most one waveform is in the air, and of those that wait only the newest is
//! kept. Times are microseconds on one clock.

use vstd::prelude::*;

use crate::device::{DeviceRoute, RouteModel};
use crate::ordered::opt;

verus! {

/// How long all attempts at one waveform may take together.
pub const PLAY_BUDGET_US: u64 = 2_000_000;

/// How long the check of the haptic engine may take.
pub const ARM_BUDGET_US: u64 = 1_000_000;

/// How long haptics rest after repeated failures.
pub const COOLDOWN_US: u64 = 4_000_000;

/// How many failures in a row make haptics rest.
pub const FAILURES_BEFORE_COOLDOWN: u32 = 3;

/// How often a waveform is tried.
pub const PLAY_ATTEMPTS: u8 = 3;

/// How often the haptic engine is checked.
pub const ARM_ATTEMPTS: u8 = 2;

/// The time that all attempts at one thing share.
#[derive(Clone, Copy, Debug, PartialEq, Eq, Structural)]
pub struct Budget {
    pub deadline_us: u64,
}

impl Budget {
    /// The time from now on.
    pub fn starting_at(now_us: u64, total_us: u64) -> (budget: Budget)
        requires
            now_us + total_us <= u64::MAX,
        ensures
            budget.deadline_us == now_us + total_us,
    {
        Budget { deadline_us: now_us + total_us }
    }

    /// How long the next attempt may take; nothing rather than no time at all.
    pub fn remaining(self, now_us: u64) -> (left: Option<u64>)
        ensures
            left == (if now_us < self.deadline_us {
                Some((self.deadline_us - now_us) as u64)
            } else {
                None
            }),
    {
        if now_us < self.deadline_us {
            Some(self.deadline_us - now_us)
        } else {
            None
        }
    }
}

/// How an attempt went.
#[derive(Clone, Copy, Debug, PartialEq, Eq, Structural)]
pub enum Outcome {
    /// It worked.
    Done,
    /// The device refused or did not answer.
    Failed,
    /// The time ran out first.
    TimedOut,
}

/// What follows an attempt.
#[derive(Clone, Copy, Debug, PartialEq, Eq, Structural)]
pub enum Verdict {
    /// Nothing: it worked.
    Succeeded,
    /// Nothing: it is not tried again.
    GaveUp,
    /// It is tried again.
    Again,
}

/// Attempts at one thing.
#[derive(Clone, Copy, Debug, PartialEq, Eq, Structural)]
pub struct Attempts {
    pub budget: Budget,
    /// How often it was tried.
    pub made: u8,
    /// How often it may be tried.
    pub allowed: u8,
}

impl Attempts {
    /// Attempts at one waveform.
    pub fn at_playing(now_us: u64) -> (attempts: Attempts)
        requires
            now_us + PLAY_BUDGET_US <= u64::MAX,
        ensures
            attempts.budget.deadline_us == now_us + PLAY_BUDGET_US,
            attempts.made == 0,
            attempts.allowed == PLAY_ATTEMPTS,
    {
        Attempts {
            budget: Budget::starting_at(now_us, PLAY_BUDGET_US),
            made: 0,
            allowed: PLAY_ATTEMPTS,
        }
    }

    /// Attempts at a check of the haptic engine.
    pub fn at_arming(now_us: u64) -> (attempts: Attempts)
        requires
            now_us + ARM_BUDGET_US <= u64::MAX,
        ensures
            attempts.budget.deadline_us == now_us + ARM_BUDGET_US,
            attempts.made == 0,
            attempts.allowed == ARM_ATTEMPTS,
    {
        Attempts {
            budget: Budget::starting_at(now_us, ARM_BUDGET_US),
            made: 0,
            allowed: ARM_ATTEMPTS,
        }
    }

    /// Whether there is an attempt left, and time for it.
    pub open spec fn goes(self, now_us: u64) -> bool {
        self.made < self.allowed && now_us < self.budget.deadline_us
    }

    /// With one more attempt begun, where there is one.
    pub open spec fn tried(self, now_us: u64) -> Attempts {
        if self.goes(now_us) {
            Attempts { made: (self.made + 1) as u8, ..self }
        } else {
            self
        }
    }

    /// Begin one more attempt, and say how long it may take; nothing where none
    /// is left, or no time for it.
    pub fn begin(&mut self, now_us: u64) -> (limit: Option<u64>)
        ensures
            ({
                let goes = old(self).made < old(self).allowed && now_us < old(
                    self,
                ).budget.deadline_us;
                &&& limit == (if goes {
                    Some((old(self).budget.deadline_us - now_us) as u64)
                } else {
                    None
                })
                &&& *final(self) == (if goes {
                    Attempts { made: (old(self).made + 1) as u8, ..*old(self) }
                } else {
                    *old(self)
                })
            }),
            limit is Some <==> old(self).goes(now_us),
            *final(self) == old(self).tried(now_us),
    {
        if self.made >= self.allowed {
            return None;
        }
        let limit = self.budget.remaining(now_us);
        if limit.is_some() {
            self.made = self.made + 1;
        }
        limit
    }

    /// What follows an attempt, where something newer may be waiting. A failure
    /// with something newer waiting is not tried again, nor is the last one.
    pub fn verdict(&self, outcome: Outcome, superseded: bool) -> (verdict: Verdict)
        ensures
            verdict == match outcome {
                Outcome::Done => Verdict::Succeeded,
                Outcome::Failed => if superseded || self.made >= self.allowed {
                    Verdict::GaveUp
                } else {
                    Verdict::Again
                },
                Outcome::TimedOut => Verdict::Again,
            },
    {
        match outcome {
            Outcome::Done => Verdict::Succeeded,
            Outcome::Failed => if superseded || self.made >= self.allowed {
                Verdict::GaveUp
            } else {
                Verdict::Again
            },
            Outcome::TimedOut => Verdict::Again,
        }
    }
}

/// What keeps haptics from adding to the load of a channel that loses replies.
#[derive(Clone, Copy, Debug, PartialEq, Eq, Structural)]
pub struct Breaker {
    /// Failures in a row.
    pub consecutive_failures: u32,
    /// Until when haptics rest.
    pub cooldown_until_us: Option<u64>,
}

impl Breaker {
    /// No failure yet.
    pub open spec fn fresh() -> Breaker {
        Breaker { consecutive_failures: 0, cooldown_until_us: None }
    }

    /// With how one more waveform went: a failure too many in a row makes
    /// haptics rest.
    pub open spec fn recorded(self, played: bool, now_us: u64) -> Breaker {
        if played {
            Breaker { consecutive_failures: 0, ..self }
        } else if self.consecutive_failures + 1 >= FAILURES_BEFORE_COOLDOWN {
            Breaker {
                consecutive_failures: 0,
                cooldown_until_us: Some((now_us + COOLDOWN_US) as u64),
            }
        } else {
            Breaker { consecutive_failures: (self.consecutive_failures + 1) as u32, ..self }
        }
    }

    /// Start over, as every session does.
    pub fn reset(&mut self)
        ensures
            *final(self) == Breaker::fresh(),
    {
        self.consecutive_failures = 0;
        self.cooldown_until_us = None;
    }

    /// Whether a waveform may be played now.
    pub fn admits(&mut self, now_us: u64) -> (yes: bool)
        ensures
            yes == !(old(self).cooldown_until_us matches Some(until) && now_us < until),
            *final(self) == (if yes {
                Breaker { cooldown_until_us: None, ..*old(self) }
            } else {
                *old(self)
            }),
    {
        if let Some(until) = self.cooldown_until_us {
            if now_us < until {
                return false;
            }
            self.cooldown_until_us = None;
        }
        true
    }

    /// Take in whether a waveform was played, and say whether haptics rest now.
    pub fn record(&mut self, played: bool, now_us: u64) -> (rests: bool)
        requires
            now_us + COOLDOWN_US <= u64::MAX,
            old(self).consecutive_failures < FAILURES_BEFORE_COOLDOWN,
        ensures
            final(self).consecutive_failures < FAILURES_BEFORE_COOLDOWN,
            rests == (!played && old(self).consecutive_failures + 1 >= FAILURES_BEFORE_COOLDOWN),
            *final(self) == (if played {
                Breaker { consecutive_failures: 0, ..*old(self) }
            } else if rests {
                Breaker {
                    consecutive_failures: 0,
                    cooldown_until_us: Some((now_us + COOLDOWN_US) as u64),
                }
            } else {
                Breaker {
                    consecutive_failures: (old(self).consecutive_failures + 1) as u32,
                    ..*old(self)
                }
            }),
            *final(self) == old(self).recorded(played, now_us),
    {
        if played {
            self.consecutive_failures = 0;
            return false;
        }
        self.consecutive_failures = self.consecutive_failures + 1;
        if self.consecutive_failures >= FAILURES_BEFORE_COOLDOWN {
            self.cooldown_until_us = Some(now_us + COOLDOWN_US);
            self.consecutive_failures = 0;
            true
        } else {
            false
        }
    }
}

impl Default for Breaker {
    fn default() -> (breaker: Self)
        ensures
            breaker == Breaker::fresh(),
    {
        Breaker { consecutive_failures: 0, cooldown_until_us: None }
    }
}

/// A haptic waveform of the Actions Ring.
#[derive(Clone, Copy, Debug, PartialEq, Eq, Structural)]
pub enum HapticWaveform {
    /// The pointer moved onto a slot.
    SubtleCollision,
    /// A slot was chosen.
    DampStateChange,
}

/// A waveform that waits.
#[derive(Debug, PartialEq, Eq)]
pub struct HapticRequest {
    pub route: DeviceRoute,
    pub waveform: HapticWaveform,
}

/// The model of a [`HapticRequest`].
pub ghost struct RequestModel {
    pub route: RouteModel,
    pub waveform: HapticWaveform,
}

impl View for HapticRequest {
    type V = RequestModel;

    open spec fn view(&self) -> RequestModel {
        RequestModel { route: self.route@, waveform: self.waveform }
    }
}

/// What waits to be played, and which engine to check first.
#[derive(Debug, PartialEq, Eq)]
pub struct HapticQueue {
    pub pending_arm: Option<DeviceRoute>,
    pub waiting: Option<HapticRequest>,
}

/// The model of a [`HapticQueue`].
pub ghost struct QueueModel {
    pub pending_arm: Option<RouteModel>,
    pub waiting: Option<RequestModel>,
}

impl View for HapticQueue {
    type V = QueueModel;

    open spec fn view(&self) -> QueueModel {
        QueueModel { pending_arm: opt(self.pending_arm), waiting: opt(self.waiting) }
    }
}

impl Default for HapticQueue {
    fn default() -> (queue: Self)
        ensures
            queue@ == (QueueModel { pending_arm: None, waiting: None }),
    {
        HapticQueue { pending_arm: None, waiting: None }
    }
}

impl HapticQueue {
    /// Have an engine checked before the next waveform, and drop what waits from
    /// an earlier session.
    pub fn arm(&mut self, route: Option<DeviceRoute>)
        ensures
            final(self)@ == match route {
                Some(route) => QueueModel { pending_arm: Some(route@), waiting: None },
                None => old(self)@,
            },
    {
        if let Some(route) = route {
            self.pending_arm = Some(route);
            self.waiting = None;
        }
    }

    /// Have a waveform played, in place of any that waits.
    pub fn play(&mut self, route: Option<DeviceRoute>, waveform: HapticWaveform)
        ensures
            final(self)@ == match route {
                Some(route) => QueueModel {
                    waiting: Some(RequestModel { route: route@, waveform }),
                    ..old(self)@
                },
                None => old(self)@,
            },
    {
        if let Some(route) = route {
            self.waiting = Some(HapticRequest { route, waveform });
        }
    }

    /// A slot of the ring was chosen.
    pub fn on_activation(&mut self, route: Option<DeviceRoute>)
        ensures
            final(self)@ == match route {
                Some(route) => QueueModel {
                    waiting: Some(
                        RequestModel { route: route@, waveform: HapticWaveform::DampStateChange },
                    ),
                    ..old(self)@
                },
                None => old(self)@,
            },
    {
        self.play(route, HapticWaveform::DampStateChange);
    }

    /// The pointer moved over the ring, perhaps onto another slot.
    pub fn on_hover(&mut self, moved: bool, route: Option<DeviceRoute>)
        ensures
            final(self)@ == match route {
                Some(route) if moved => QueueModel {
                    waiting: Some(
                        RequestModel { route: route@, waveform: HapticWaveform::SubtleCollision },
                    ),
                    ..old(self)@
                },
                _ => old(self)@,
            },
    {
        if moved {
            self.play(route, HapticWaveform::SubtleCollision);
        }
    }

    /// Take the engine to check.
    pub fn take_arm(&mut self) -> (route: Option<DeviceRoute>)
        ensures
            opt(route) == old(self)@.pending_arm,
            final(self)@ == (QueueModel { pending_arm: None, ..old(self)@ }),
    {
        let mut route: Option<DeviceRoute> = None;
        std::mem::swap(&mut route, &mut self.pending_arm);
        route
    }

    /// Take the waveform to play.
    pub fn take_request(&mut self) -> (request: Option<HapticRequest>)
        ensures
            opt(request) == old(self)@.waiting,
            final(self)@ == (QueueModel { waiting: None, ..old(self)@ }),
    {
        let mut request: Option<HapticRequest> = None;
        std::mem::swap(&mut request, &mut self.waiting);
        request
    }
}

/// One turn of the worker that plays waveforms.
#[derive(Debug, PartialEq, Eq)]
pub struct Turn {
    /// The engine to check first.
    pub arm: Option<DeviceRoute>,
    /// The waveform to play after that.
    pub play: Option<HapticRequest>,
}

/// The model of a [`Turn`].
pub ghost struct TurnModel {
    pub arm: Option<RouteModel>,
    pub play: Option<RequestModel>,
}

impl View for Turn {
    type V = TurnModel;

    open spec fn view(&self) -> TurnModel {
        TurnModel { arm: opt(self.arm), play: opt(self.play) }
    }
}

impl Breaker {
    /// Whether haptics rest.
    pub open spec fn rests_at(self, now_us: u64) -> bool {
        self.cooldown_until_us matches Some(until) && now_us < until
    }

    /// What is known once a turn has begun: an engine to check means a new
    /// session, which starts over.
    pub open spec fn in_turn(self, queue: QueueModel) -> Breaker {
        if queue.pending_arm is Some {
            Breaker::fresh()
        } else {
            self
        }
    }

    /// What is known once the newest waveform was looked at. A rest that is over
    /// is forgotten.
    pub open spec fn after_pick(self, queue: QueueModel, now_us: u64) -> Breaker {
        if queue.waiting is Some && !self.rests_at(now_us) {
            Breaker { cooldown_until_us: None, ..self }
        } else {
            self
        }
    }

    /// The waveform to play: the newest, unless haptics rest.
    pub open spec fn picked(self, queue: QueueModel, now_us: u64) -> Option<RequestModel> {
        if self.rests_at(now_us) {
            None
        } else {
            queue.waiting
        }
    }

    /// Begin a turn: take the engine to check, and start over where there is one.
    pub fn begin_turn(&mut self, queue: &mut HapticQueue) -> (arm: Option<DeviceRoute>)
        ensures
            opt(arm) == old(queue)@.pending_arm,
            *final(self) == old(self).in_turn(old(queue)@),
            final(queue)@ == (QueueModel { pending_arm: None, ..old(queue)@ }),
    {
        let arm = queue.take_arm();
        if arm.is_some() {
            self.reset();
        }
        arm
    }

    /// Take the newest waveform, and drop it where haptics rest. What came in
    /// while an engine was checked counts.
    pub fn pick(&mut self, queue: &mut HapticQueue, now_us: u64) -> (play: Option<HapticRequest>)
        ensures
            opt(play) == old(self).picked(old(queue)@, now_us),
            *final(self) == old(self).after_pick(old(queue)@, now_us),
            final(queue)@ == (QueueModel { waiting: None, ..old(queue)@ }),
    {
        let request = queue.take_request();
        if request.is_none() {
            return None;
        }
        if self.admits(now_us) {
            request
        } else {
            None
        }
    }

    /// What one wake of the worker comes to where nothing comes in meanwhile.
    pub fn wake(&mut self, queue: &mut HapticQueue, now_us: u64) -> (turn: Turn)
        ensures
            turn@ == (TurnModel {
                arm: old(queue)@.pending_arm,
                play: old(self).in_turn(old(queue)@).picked(old(queue)@, now_us),
            }),
            *final(self) == old(self).in_turn(old(queue)@).after_pick(old(queue)@, now_us),
            final(queue)@ == (QueueModel { pending_arm: None, waiting: None }),
    {
        let arm = self.begin_turn(queue);
        let play = self.pick(queue, now_us);
        Turn { arm, play }
    }
}

/// A new session is not silenced by how the last one ended: its engine is
/// checked first, what waits is played, and no failure is counted against it.
pub proof fn law_a_new_session_is_not_silenced(
    breaker: Breaker,
    queue: QueueModel,
    now_us: u64,
)
    requires
        queue.pending_arm is Some,
    ensures
        breaker.in_turn(queue).picked(queue, now_us) == queue.waiting,
        breaker.in_turn(queue).after_pick(queue, now_us) == Breaker::fresh(),
{
}

/// While haptics rest and no session begins, nothing is played and nothing is
/// forgotten; once the rest is over, the next waveform is played.
pub proof fn law_a_rest_is_kept(breaker: Breaker, queue: QueueModel, now_us: u64)
    requires
        queue.pending_arm is None,
    ensures
        breaker.rests_at(now_us) ==> {
            &&& breaker.in_turn(queue).picked(queue, now_us) is None
            &&& breaker.in_turn(queue).after_pick(queue, now_us) == breaker
        },
        !breaker.rests_at(now_us) ==> breaker.in_turn(queue).picked(queue, now_us)
            == queue.waiting,
{
}

/// The two budgets together leave most of a fifteen second session, and the
/// check does not outlast what it precedes.
pub proof fn law_the_budgets_stay_within_a_session()
    ensures
        ARM_BUDGET_US < PLAY_BUDGET_US,
        ARM_BUDGET_US + PLAY_BUDGET_US < 15_000_000,
{
}

/// The third failure in a row makes haptics rest, for four seconds from it on,
/// and no earlier one does; what was played in between starts the count over.
/// After a rest the count starts over as well.
pub proof fn law_three_failures_make_a_rest(
    start: Breaker,
    first_us: u64,
    second_us: u64,
    third_us: u64,
    now_us: u64,
)
    requires
        start.consecutive_failures == 0,
        start.cooldown_until_us is None,
        third_us + COOLDOWN_US <= u64::MAX,
    ensures
        ({
            let one = start.recorded(false, first_us);
            let two = one.recorded(false, second_us);
            let three = two.recorded(false, third_us);
            &&& !one.rests_at(now_us)
            &&& !two.rests_at(now_us)
            &&& three.rests_at(now_us) <==> now_us < third_us + 4_000_000
            &&& three.consecutive_failures == 0
            &&& two.recorded(true, third_us) == start
            &&& one.recorded(true, second_us) == start
        }),
{
}

/// A thing is tried no more often than is allowed and not after its time: each
/// attempt has the whole of the time that is left.
pub proof fn law_attempts_come_to_an_end(attempts: Attempts, now_us: u64)
    ensures
        attempts.goes(now_us) ==> {
            &&& attempts.made < attempts.allowed
            &&& now_us < attempts.budget.deadline_us
            &&& attempts.tried(now_us).made == attempts.made + 1
        },
        attempts.made >= attempts.allowed ==> !attempts.goes(now_us),
        now_us >= attempts.budget.deadline_us ==> !attempts.goes(now_us),
        attempts.made < attempts.allowed && now_us < attempts.budget.deadline_us ==> attempts.goes(
            now_us,
        ),
        attempts.tried(now_us).allowed == attempts.allowed,
        attempts.tried(now_us).budget == attempts.budget,
        !attempts.goes(now_us) ==> attempts.tried(now_us) == attempts,
{
}

}
