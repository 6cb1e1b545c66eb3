use rust_iss::clients::retry::{RetryAction, RetryEvent, RetryPolicy, RetryState};

#[test]
fn retry_bound_three_retries_makes_four_attempts() {
    let policy = RetryPolicy { max_retries: 3, base_delay_ms: 1000 };
    let trace = policy.run(&vec![false, false, false, false, false, false]);
    assert_eq!(trace.state, RetryState::Exhausted { attempts: 4 });
    assert_eq!(trace.delays, vec![1000, 2000, 3000]);
}

#[test]
fn retry_bound_holds_for_other_budgets() {
    for max_retries in 0..6u32 {
        let policy = RetryPolicy { max_retries, base_delay_ms: 10 };
        let trace = policy.run(&vec![false; 10]);
        assert_eq!(trace.state, RetryState::Exhausted { attempts: max_retries as u64 + 1 });
        assert_eq!(trace.delays.len(), max_retries as usize);
    }
}

#[test]
fn success_ends_the_fetch_at_once() {
    let policy = RetryPolicy { max_retries: 3, base_delay_ms: 2000 };
    let first = policy.run(&vec![true, false]);
    assert_eq!(first.state, RetryState::Succeeded { attempts: 1 });
    assert!(first.delays.is_empty());

    let third = policy.run(&vec![false, false, true, false]);
    assert_eq!(third.state, RetryState::Succeeded { attempts: 3 });
    assert_eq!(third.delays, vec![2000, 4000]);

    let last_chance = policy.run(&vec![false, false, false, true]);
    assert_eq!(last_chance.state, RetryState::Succeeded { attempts: 4 });
    assert_eq!(last_chance.delays, vec![2000, 4000, 6000]);
}

#[test]
fn a_record_that_runs_out_leaves_the_fetch_open() {
    let policy = RetryPolicy { max_retries: 3, base_delay_ms: 1500 };
    let empty = policy.run(&vec![]);
    assert_eq!(empty.state, RetryState::Attempting { failures: 0 });
    let partial = policy.run(&vec![false, false]);
    assert_eq!(partial.state, RetryState::Attempting { failures: 2 });
    assert_eq!(partial.delays, vec![1500, 3000]);
}

#[test]
fn backoff_delays_never_decrease() {
    let policy = RetryPolicy { max_retries: 50, base_delay_ms: 1500 };
    let trace = policy.run(&vec![false; 60]);
    assert_eq!(trace.delays.len(), 50);
    for pair in trace.delays.windows(2) {
        assert!(pair[0] <= pair[1]);
    }
    assert_eq!(policy.delay_for(0), 0);
    assert_eq!(policy.delay_for(1), 1500);
    assert_eq!(policy.delay_for(7), 10500);
    let widest = RetryPolicy { max_retries: u32::MAX, base_delay_ms: u32::MAX };
    assert_eq!(widest.delay_for(u32::MAX), (u32::MAX as u64) * (u32::MAX as u64));
}

#[test]
fn steps_follow_the_machine() {
    let policy = RetryPolicy { max_retries: 1, base_delay_ms: 2000 };
    let s0 = policy.start();
    assert_eq!(s0, RetryState::Attempting { failures: 0 });
    assert!(!s0.terminal());

    let (s1, a1) = policy.step(s0, RetryEvent::AttemptFailed);
    assert_eq!(s1, RetryState::Backoff { failures: 1, delay_ms: 2000 });
    assert_eq!(a1, RetryAction::Sleep { delay_ms: 2000 });

    let (same, ignored) = policy.step(s1, RetryEvent::AttemptFailed);
    assert_eq!(same, s1);
    assert_eq!(ignored, RetryAction::Ignore);

    let (s2, a2) = policy.step(s1, RetryEvent::BackoffElapsed);
    assert_eq!(s2, RetryState::Attempting { failures: 1 });
    assert_eq!(a2, RetryAction::Attempt);

    let (s3, a3) = policy.step(s2, RetryEvent::AttemptFailed);
    assert_eq!(s3, RetryState::Exhausted { attempts: 2 });
    assert_eq!(a3, RetryAction::GiveUp);
    assert!(s3.terminal());

    let (s4, a4) = policy.step(s3, RetryEvent::AttemptSucceeded);
    assert_eq!(s4, s3);
    assert_eq!(a4, RetryAction::Ignore);

    let (won, deliver) = policy.step(s2, RetryEvent::AttemptSucceeded);
    assert_eq!(won, RetryState::Succeeded { attempts: 2 });
    assert_eq!(deliver, RetryAction::Deliver);
    assert!(won.terminal());
}
