use websocket_service::retry::{may_retry, retry_budget, RetryOutcome, RetryPolicy, RetryRun};

fn policy(max_attempts: u8) -> RetryPolicy {
    RetryPolicy { max_attempts, delay_seconds: 5 }
}

#[test]
fn bounded_retry_returns_the_error_after_exactly_three_attempts() {
    let run = retry_budget(&policy(3), &vec![false, false, false]);
    // Three attempts, and a sleep after each failure but the last: 2 * delay.
    assert_eq!(
        run,
        RetryRun { attempts: 3, sleeps: 2, outcome: RetryOutcome::GaveUp }
    );
}

#[test]
fn one_attempt_means_no_retry() {
    let run = retry_budget(&policy(1), &vec![false, false]);
    assert_eq!(run, RetryRun { attempts: 1, sleeps: 0, outcome: RetryOutcome::GaveUp });
}

#[test]
fn unbounded_retry_never_returns_while_failing() {
    let run = retry_budget(&policy(0), &vec![false; 50]);
    assert_eq!(run.outcome, RetryOutcome::StillRunning);
    assert_eq!(run.attempts, 50);
    // Make the operation succeed on the next attempt: the run returns.
    let mut outcomes = vec![false; 50];
    outcomes.push(true);
    let run = retry_budget(&policy(0), &outcomes);
    assert_eq!(
        run,
        RetryRun { attempts: 51, sleeps: 50, outcome: RetryOutcome::Succeeded }
    );
}

#[test]
fn success_stops_a_bounded_run() {
    let run = retry_budget(&policy(3), &vec![false, true, false]);
    assert_eq!(run, RetryRun { attempts: 2, sleeps: 1, outcome: RetryOutcome::Succeeded });
}

#[test]
fn immediate_success_takes_one_attempt() {
    let run = retry_budget(&policy(3), &vec![true]);
    assert_eq!(run, RetryRun { attempts: 1, sleeps: 0, outcome: RetryOutcome::Succeeded });
}

#[test]
fn budget_edges() {
    // Unbounded: always one more attempt.
    assert!(may_retry(&policy(0), 0));
    assert!(may_retry(&policy(0), 1_000_000));
    // Bounded: exactly max_attempts attempts.
    assert!(may_retry(&policy(3), 2));
    assert!(!may_retry(&policy(3), 3));
    assert!(!may_retry(&policy(1), 1));
}
