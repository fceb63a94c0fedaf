//! The dial-level retry policy: a bounded-or-unbounded attempt budget with a
//! fixed delay between attempts.  A budget of 0 means retry forever; a
//! budget of n means exactly n attempts, with a sleep after each failure but
//! the last.  The decision logic is pure; the caller performs the attempts
//! and the sleeps.

use vstd::prelude::*;

verus! {

/// An immutable retry policy: `max_attempts == 0` retries forever;
/// otherwise the operation is tried exactly `max_attempts` times.
#[derive(Debug, Clone, Copy, PartialEq, Eq)]
pub struct RetryPolicy {
    pub max_attempts: u8,
    pub delay_seconds: u64,
}

/// How a run of attempts ended.
#[derive(Debug, Clone, Copy, PartialEq, Eq)]
pub enum RetryOutcome {
    /// An attempt succeeded.
    Succeeded,
    /// The budget is spent: the last error goes back to the caller.
    GaveUp,
    /// The supplied outcomes ran out while the policy would have kept
    /// retrying; the run is still in flight.
    StillRunning,
}

/// What a run of attempts did: how many attempts were made, how many sleeps
/// were taken (each of `delay_seconds`), and how it ended.
#[derive(Debug, Clone, Copy, PartialEq, Eq)]
pub struct RetryRun {
    pub attempts: usize,
    pub sleeps: usize,
    pub outcome: RetryOutcome,
}

/// Whether the policy allows one more attempt after `failures` failed ones.
pub open spec fn spec_may_retry(max_attempts: u8, failures: nat) -> bool {
    max_attempts == 0 || failures < max_attempts
}

/// The whole run, as a function of the policy and the sequence of attempt
/// outcomes (`true` = the attempt succeeded), starting after `failures`
/// failed attempts: how many further attempts are made, how many sleeps are
/// taken, and how the run ends.
pub open spec fn spec_retry(max_attempts: u8, outcomes: Seq<bool>, failures: nat) -> (nat, nat, RetryOutcome)
    decreases outcomes.len(),
{
    if outcomes.len() == 0 {
        (0, 0, RetryOutcome::StillRunning)
    } else if outcomes[0] {
        (1, 0, RetryOutcome::Succeeded)
    } else if !spec_may_retry(max_attempts, failures + 1) {
        (1, 0, RetryOutcome::GaveUp)
    } else {
        let rest = spec_retry(max_attempts, outcomes.drop_first(), failures + 1);
        ((rest.0 + 1) as nat, (rest.1 + 1) as nat, rest.2)
    }
}

/// Whether one more attempt is allowed after `failures` failed attempts.
pub fn may_retry(policy: &RetryPolicy, failures: u64) -> (r: bool)
    ensures
        r == spec_may_retry(policy.max_attempts, failures as nat),
{
    policy.max_attempts == 0 || failures < policy.max_attempts as u64
}

/// Drive the retry policy over a given sequence of attempt outcomes
/// (`true` = that attempt succeeds).  It makes one attempt, then after each
/// failure either gives up (budget spent) or sleeps once and tries again;
/// with budget 0 it never gives up.
pub fn retry_budget(policy: &RetryPolicy, outcomes: &Vec<bool>) -> (r: RetryRun)
    ensures
        ({
            let m = spec_retry(policy.max_attempts, outcomes@, 0);
            r.attempts == m.0 && r.sleeps == m.1 && r.outcome == m.2
        }),
{
    let max = policy.max_attempts;
    let mut i: usize = 0;
    let n = outcomes.len();
    proof {
        assert(outcomes@.skip(0) =~= outcomes@);
    }
    while i < n
        invariant
            0 <= i <= n,
            n == outcomes@.len(),
            max == policy.max_attempts,
            spec_retry(max, outcomes@, 0).0 == spec_retry(max, outcomes@.skip(i as int), i as nat).0
                + i,
            spec_retry(max, outcomes@, 0).1 == spec_retry(max, outcomes@.skip(i as int), i as nat).1
                + i,
            spec_retry(max, outcomes@, 0).2 == spec_retry(
                max,
                outcomes@.skip(i as int),
                i as nat,
            ).2,
        decreases n - i,
    {
        let ghost here = outcomes@.skip(i as int);
        proof {
            assert(here.len() == n - i);
            assert(here[0] == outcomes@[i as int]);
            assert(here.drop_first() =~= outcomes@.skip(i as int + 1));
        }
        if outcomes[i] {
            proof {
                assert(spec_retry(max, here, i as nat) == (
                    1nat,
                    0nat,
                    RetryOutcome::Succeeded,
                ));
            }
            return RetryRun { attempts: i + 1, sleeps: i, outcome: RetryOutcome::Succeeded };
        }
        let more = may_retry(policy, (i as u64) + 1);
        if !more {
            proof {
                assert(spec_retry(max, here, i as nat) == (1nat, 0nat, RetryOutcome::GaveUp));
            }
            return RetryRun { attempts: i + 1, sleeps: i, outcome: RetryOutcome::GaveUp };
        }
        proof {
            let rest = spec_retry(max, here.drop_first(), i as nat + 1);
            assert(spec_retry(max, here, i as nat) == (
                (rest.0 + 1) as nat,
                (rest.1 + 1) as nat,
                rest.2,
            ));
        }
        i = i + 1;
    }
    proof {
        assert(outcomes@.skip(n as int) =~= Seq::<bool>::empty());
        assert(spec_retry(max, outcomes@.skip(n as int), n as nat) == (
            0nat,
            0nat,
            RetryOutcome::StillRunning,
        ));
    }
    RetryRun { attempts: n, sleeps: n, outcome: RetryOutcome::StillRunning }
}

/// With a budget of n >= 1 and an operation that keeps failing, the run
/// makes exactly n attempts and sleeps n - 1 times, then hands the last
/// error back.
pub proof fn lemma_retry_bounded_termination(max_attempts: u8, outcomes: Seq<bool>, failures: nat)
    requires
        1 <= max_attempts,
        failures < max_attempts,
        outcomes.len() >= max_attempts - failures,
        forall|j: int| 0 <= j < max_attempts - failures ==> !outcomes[j],
    ensures
        spec_retry(max_attempts, outcomes, failures) == ((max_attempts - failures) as nat, (
        max_attempts - failures - 1) as nat, RetryOutcome::GaveUp),
    decreases outcomes.len(),
{
    if failures + 1 == max_attempts {
    } else {
        assert(forall|j: int|
            0 <= j < max_attempts - (failures + 1) ==> !outcomes.drop_first()[j]);
        lemma_retry_bounded_termination(max_attempts, outcomes.drop_first(), failures + 1);
    }
}

/// With an unbounded budget the run never gives up: while the operation
/// keeps failing it is still in flight, however many outcomes are consumed.
pub proof fn lemma_retry_unbounded_never_gives_up(outcomes: Seq<bool>, failures: nat)
    ensures
        spec_retry(0, outcomes, failures).2 != RetryOutcome::GaveUp,
    decreases outcomes.len(),
{
    if outcomes.len() == 0 {
    } else if outcomes[0] {
    } else {
        lemma_retry_unbounded_never_gives_up(outcomes.drop_first(), failures + 1);
    }
}

/// Once the operation succeeds, the run returns: with the first success at
/// index k (all earlier attempts failing) and an unbounded budget, the run
/// ends `Succeeded` after exactly k + 1 attempts and k sleeps.
pub proof fn lemma_retry_returns_on_success(outcomes: Seq<bool>, failures: nat, k: int)
    requires
        0 <= k < outcomes.len(),
        outcomes[k],
        forall|j: int| 0 <= j < k ==> !outcomes[j],
    ensures
        spec_retry(0, outcomes, failures) == ((k + 1) as nat, k as nat, RetryOutcome::Succeeded),
    decreases k,
{
    if k == 0 {
    } else {
        assert(outcomes.drop_first()[k - 1]);
        assert(forall|j: int| 0 <= j < k - 1 ==> !outcomes.drop_first()[j]);
        lemma_retry_returns_on_success(outcomes.drop_first(), failures + 1, k - 1);
    }
}

} // verus!
