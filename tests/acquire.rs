use redis_utils::acquire::{AcquireError, Acquisition, Action, AttemptOutcome, FailureReason, Phase};
use redis_utils::policy::RetryPolicy;

fn fail() -> AttemptOutcome {
    AttemptOutcome::TransientFailure(FailureReason::PoolExhausted)
}

/// Drives an acquisition with the given outcomes and draws; returns the
/// actions taken.
fn drive(acq: &mut Acquisition, outcomes: Vec<AttemptOutcome>, sample: u64) -> Vec<Action> {
    let mut actions = Vec::new();
    for o in outcomes {
        assert!(acq.can_attempt());
        acq.begin_attempt();
        assert_eq!(acq.phase(), Phase::InFlight);
        let a = acq.record_outcome(o, sample);
        let over = !matches!(a, Action::Sleep(_));
        actions.push(a);
        if over {
            break;
        }
    }
    actions
}

#[test]
fn first_try_success_waits_nothing() {
    for n in [1u64, 3, 15] {
        for p in [
            RetryPolicy::Fixed { delay_ms: 10, attempts: n },
            RetryPolicy::ExponentialJittered { base_ms: 10, attempts: n },
        ] {
            let mut acq = Acquisition::new(p);
            assert_eq!(acq.phase(), Phase::Ready);
            let actions = drive(&mut acq, vec![AttemptOutcome::Success], 5);
            assert_eq!(actions, vec![Action::Deliver]);
            assert_eq!(acq.attempts_made(), 1);
            assert!(acq.waits().is_empty());
            assert_eq!(acq.phase(), Phase::Acquired);
            assert!(!acq.can_attempt());
        }
    }
}

#[test]
fn fixed_policy_exhausts_after_budget() {
    let p = RetryPolicy::Fixed { delay_ms: 10, attempts: 15 };
    let mut acq = Acquisition::new(p);
    let mut outcomes: Vec<AttemptOutcome> = (0..14).map(|_| fail()).collect();
    outcomes.push(AttemptOutcome::TransientFailure(FailureReason::Unreachable(
        "connection refused".to_string(),
    )));
    outcomes.push(AttemptOutcome::Success);
    let actions = drive(&mut acq, outcomes, 0);
    assert_eq!(actions.len(), 15);
    for a in &actions[..14] {
        assert_eq!(*a, Action::Sleep(10));
    }
    assert_eq!(
        actions[14],
        Action::GiveUp(AcquireError::Exhausted(FailureReason::Unreachable(
            "connection refused".to_string()
        )))
    );
    assert_eq!(acq.attempts_made(), 15);
    assert_eq!(acq.waits(), &vec![10u64; 14]);
    assert_eq!(acq.waits().iter().sum::<u64>(), 140);
    assert!(acq.waits().iter().sum::<u64>() <= p.delay_caps().iter().sum::<u64>());
    assert_eq!(acq.phase(), Phase::Exhausted);
}

#[test]
fn single_attempt_budget_gives_up_at_once() {
    let mut acq = Acquisition::new(RetryPolicy::ExponentialJittered { base_ms: 10, attempts: 1 });
    let actions = drive(&mut acq, vec![AttemptOutcome::TransientFailure(FailureReason::TimedOut)], 3);
    assert_eq!(actions, vec![Action::GiveUp(AcquireError::Exhausted(FailureReason::TimedOut))]);
    assert_eq!(acq.attempts_made(), 1);
    assert!(acq.waits().is_empty());
}

#[test]
fn success_on_third_attempt_uses_three_attempts() {
    let p = RetryPolicy::ExponentialJittered { base_ms: 10, attempts: 5 };
    let mut acq = Acquisition::new(p);
    let outcomes = vec![fail(), fail(), AttemptOutcome::Success, fail()];
    let actions = drive(&mut acq, outcomes, 15);
    assert_eq!(actions, vec![Action::Sleep(10), Action::Sleep(15), Action::Deliver]);
    assert_eq!(acq.attempts_made(), 3);
    assert_eq!(acq.waits(), &vec![10u64, 15]);
    assert_eq!(acq.phase(), Phase::Acquired);
}

#[test]
fn jittered_waits_stay_within_caps() {
    let p = RetryPolicy::ExponentialJittered { base_ms: 10, attempts: 3 };
    for _ in 0..200 {
        let mut acq = Acquisition::new(p);
        let mut last = None;
        while acq.can_attempt() {
            acq.begin_attempt();
            last = Some(acq.resolve(fail()));
        }
        assert_eq!(last, Some(Action::GiveUp(AcquireError::Exhausted(FailureReason::PoolExhausted))));
        let w = acq.waits();
        assert_eq!(w.len(), 2);
        assert!(w[0] <= 10 && w[1] <= 20);
        assert!(w.iter().sum::<u64>() <= 70);
    }
}

#[test]
fn resolve_success_delivers() {
    let mut acq = Acquisition::new(RetryPolicy::Fixed { delay_ms: 10, attempts: 2 });
    acq.begin_attempt();
    assert_eq!(acq.resolve(fail()), Action::Sleep(10));
    assert_eq!(acq.phase(), Phase::Waiting);
    acq.begin_attempt();
    assert_eq!(acq.resolve(AttemptOutcome::Success), Action::Deliver);
    assert_eq!(acq.attempts_made(), 2);
    assert_eq!(acq.policy(), RetryPolicy::Fixed { delay_ms: 10, attempts: 2 });
}
