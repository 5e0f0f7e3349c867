//! What is done when the log cannot be written: the write is tried again,
//! each time after a longer wait, and after some failures the log is given up.

use vstd::prelude::*;

verus! {

/// How often, and how patiently, a write is tried again.
#[derive(Clone, Copy, PartialEq, Eq, Structural, Debug)]
pub struct RetryPolicy {
    /// The number of failures after which the log is given up.
    pub max_failures: u32,
    /// The wait after the first failure, in milliseconds.
    pub first_delay_ms: u64,
    /// The longest wait, in milliseconds.
    pub max_delay_ms: u64,
}

/// What is done after a failure.
#[derive(Clone, Copy, PartialEq, Eq, Structural, Debug)]
pub enum RetryDecision {
    /// The write is tried again after so many milliseconds.
    RetryAfter(u64),
    /// The log is given up: an alarm is raised, and the store goes on in
    /// memory alone.
    GiveUp,
}

/// The smaller of two numbers.
pub open spec fn smaller(a: nat, b: nat) -> nat {
    if a <= b {
        a
    } else {
        b
    }
}

/// The wait after the given number of failures: the first wait after the
/// first failure, and twice the wait before after each other; never longer
/// than the longest wait.
pub open spec fn delay_after(policy: RetryPolicy, failures: nat) -> nat
    decreases failures,
{
    if failures <= 1 {
        smaller(policy.first_delay_ms as nat, policy.max_delay_ms as nat)
    } else {
        smaller(2 * delay_after(policy, (failures - 1) as nat), policy.max_delay_ms as nat)
    }
}

/// Once the wait is the longest wait, or none at all, it stays so.
pub proof fn lemma_delay_settles(policy: RetryPolicy, reached: nat, later: nat)
    requires
        1 <= reached <= later,
        delay_after(policy, reached) == policy.max_delay_ms || delay_after(policy, reached) == 0,
    ensures
        delay_after(policy, later) == delay_after(policy, reached),
    decreases later,
{
    if reached < later {
        lemma_delay_settles(policy, reached, (later - 1) as nat);
    }
}

impl RetryPolicy {
    /// Tells what is done after the given number of failures in a row.
    pub fn on_failure(&self, failures: u32) -> (decision: RetryDecision)
        ensures
            decision == if failures == 0 {
                RetryDecision::RetryAfter(0)
            } else if failures >= self.max_failures {
                RetryDecision::GiveUp
            } else {
                RetryDecision::RetryAfter(delay_after(*self, failures as nat) as u64)
            },
    {
        if failures == 0 {
            return RetryDecision::RetryAfter(0);
        }
        if failures >= self.max_failures {
            return RetryDecision::GiveUp;
        }
        let mut delay: u64 = if self.first_delay_ms <= self.max_delay_ms {
            self.first_delay_ms
        } else {
            self.max_delay_ms
        };
        let mut done: u32 = 1;
        while done < failures && delay < self.max_delay_ms && delay > 0
            invariant
                1 <= done <= failures,
                delay == delay_after(*self, done as nat),
                delay <= self.max_delay_ms,
            decreases failures - done,
        {
            delay = if delay > self.max_delay_ms / 2 {
                self.max_delay_ms
            } else {
                delay * 2
            };
            done += 1;
        }
        proof {
            if done < failures {
                lemma_delay_settles(*self, done as nat, failures as nat);
            }
        }
        RetryDecision::RetryAfter(delay)
    }
}

} // verus!
