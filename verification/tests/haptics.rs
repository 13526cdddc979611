//! How long haptics may take.

use openlogi::agent::haptics::{
    Attempts, Breaker, Budget, HapticQueue, HapticWaveform, Outcome, Verdict, ARM_BUDGET_US,
    COOLDOWN_US, PLAY_BUDGET_US,
};
use openlogi::device::DeviceRoute;

/// Attempts share one allowance: the second gets what the first left.
#[test]
fn a_partly_spent_budget_offers_only_the_remainder() {
    let start = 0;
    let budget = Budget::starting_at(start, 2_000_000);

    let left = budget.remaining(start + 1_500_000).unwrap();

    assert_eq!(left, 500_000);
}

/// A spent budget reads as "stop", not as "there is no time".
#[test]
fn a_spent_budget_offers_nothing_rather_than_zero() {
    let start = 0;
    let budget = Budget::starting_at(start, 2_000_000);

    assert_eq!(budget.remaining(start + 2_000_000), None);
    assert_eq!(budget.remaining(start + 5_000_000), None);
}

/// Both budgets keep one interaction from eating the fifteen seconds the ring
/// is open for, and arming does not outlast the buzz it precedes.
#[test]
fn the_budgets_stay_within_a_ring_session() {
    assert!(ARM_BUDGET_US < PLAY_BUDGET_US);
    assert!(ARM_BUDGET_US + PLAY_BUDGET_US < 15_000_000);
}

fn route(slot: u8) -> DeviceRoute {
    DeviceRoute::Bolt {
        receiver_uid: "cafe".to_string(),
        slot,
    }
}

#[test]
fn a_waveform_is_tried_three_times_within_its_budget() {
    let mut attempts = Attempts::at_playing(0);
    assert_eq!(attempts.begin(0), Some(PLAY_BUDGET_US));
    assert_eq!(attempts.verdict(Outcome::Failed, false), Verdict::Again);
    assert_eq!(attempts.verdict(Outcome::Failed, true), Verdict::GaveUp);
    assert_eq!(attempts.begin(500_000), Some(1_500_000));
    assert_eq!(attempts.begin(600_000), Some(1_400_000));
    assert_eq!(attempts.verdict(Outcome::Failed, false), Verdict::GaveUp);
    assert_eq!(attempts.verdict(Outcome::Done, false), Verdict::Succeeded);
    assert_eq!(attempts.begin(700_000), None);

    let mut late = Attempts::at_arming(0);
    assert_eq!(late.begin(ARM_BUDGET_US), None);
}

#[test]
fn three_failures_in_a_row_make_haptics_rest() {
    let mut breaker = Breaker {
        consecutive_failures: 0,
        cooldown_until_us: None,
    };
    assert!(!breaker.record(false, 0));
    assert!(!breaker.record(false, 0));
    assert!(!breaker.record(true, 0));
    assert!(!breaker.record(false, 0));
    assert!(!breaker.record(false, 0));
    assert!(breaker.record(false, 10));
    assert!(!breaker.admits(9 + COOLDOWN_US));
    assert!(breaker.admits(10 + COOLDOWN_US));
    assert_eq!(breaker.cooldown_until_us, None);
    breaker.record(false, 0);
    breaker.reset();
    assert_eq!(breaker.consecutive_failures, 0);
}

#[test]
fn the_latest_waveform_is_played_and_a_check_drops_what_waits() {
    let mut queue = HapticQueue::default();
    queue.play(None, HapticWaveform::SubtleCollision);
    assert_eq!(queue.take_request(), None);
    queue.play(Some(route(1)), HapticWaveform::SubtleCollision);
    queue.play(Some(route(2)), HapticWaveform::DampStateChange);
    assert_eq!(queue.take_request().map(|request| request.route), Some(route(2)));
    queue.play(Some(route(1)), HapticWaveform::SubtleCollision);
    queue.arm(Some(route(1)));
    assert_eq!(queue.take_request(), None);
    assert_eq!(queue.take_arm(), Some(route(1)));
    assert_eq!(queue.take_arm(), None);
}

#[test]
fn the_ring_is_felt_on_another_slot_and_on_a_choice() {
    let route = || {
        Some(DeviceRoute::Direct {
            vendor_id: 0x046d,
            product_id: 0xb034,
        })
    };
    let mut queue = HapticQueue::default();
    queue.on_hover(false, route());
    assert!(queue.take_request().is_none());
    queue.on_hover(true, None);
    assert!(queue.take_request().is_none());
    queue.on_hover(true, route());
    assert_eq!(
        queue.take_request().map(|request| request.waveform),
        Some(HapticWaveform::SubtleCollision)
    );
    queue.on_activation(route());
    assert_eq!(
        queue.take_request().map(|request| request.waveform),
        Some(HapticWaveform::DampStateChange)
    );
}

#[test]
fn a_new_session_starts_the_worker_over() {
    let route = || DeviceRoute::Direct {
        vendor_id: 0x046d,
        product_id: 0xb034,
    };
    let mut breaker = Breaker::default();
    let mut queue = HapticQueue::default();
    for _ in 0..3 {
        breaker.record(false, 0);
    }

    // While haptics rest, what waits is dropped.
    queue.on_activation(Some(route()));
    let turn = breaker.wake(&mut queue, 1);
    assert!(turn.arm.is_none() && turn.play.is_none());
    assert!(queue.take_request().is_none());

    // A session to arm starts over, and what waits is played.
    queue.arm(Some(route()));
    queue.on_hover(true, Some(route()));
    let turn = breaker.wake(&mut queue, 1);
    assert_eq!(turn.arm, Some(route()));
    assert_eq!(
        turn.play.map(|request| request.waveform),
        Some(HapticWaveform::SubtleCollision)
    );
    assert_eq!(breaker, Breaker::default());

    // Without anything to do, nothing changes.
    let turn = breaker.wake(&mut queue, 2);
    assert!(turn.arm.is_none() && turn.play.is_none());
}

#[test]
fn what_comes_in_while_an_engine_is_checked_is_played() {
    let route = || DeviceRoute::Direct {
        vendor_id: 0x046d,
        product_id: 0xb034,
    };
    let mut breaker = Breaker::default();
    let mut queue = HapticQueue::default();
    queue.arm(Some(route()));
    assert_eq!(breaker.begin_turn(&mut queue), Some(route()));
    queue.on_hover(true, Some(route()));
    queue.on_activation(Some(route()));
    assert_eq!(
        breaker.pick(&mut queue, 5).map(|request| request.waveform),
        Some(HapticWaveform::DampStateChange)
    );
}
