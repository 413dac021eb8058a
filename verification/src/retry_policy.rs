//! How many times a failed download is tried again.
use vstd::prelude::*;

verus! {

/// Retries allowed after the first failure when nothing else is configured.
pub const DEFAULT_MAX_RETRIES: u8 = 2;

/// A bound on automatic retries of a failed download.
#[derive(Debug, Clone, Copy, PartialEq, Eq, Structural)]
pub struct RetryPolicy {
    pub max_retries: u8,
}

/// What to do with a task that has just failed.
#[derive(Debug, Clone, Copy, PartialEq, Eq, Structural)]
pub enum RetryDecision {
    Retry { next_retry_count: u8 },
    Terminal,
}

impl RetryPolicy {
    /// What `decide` returns for a task that has been retried `current` times.
    pub open spec fn decision(self, current: u8) -> RetryDecision {
        if current < self.max_retries {
            RetryDecision::Retry { next_retry_count: (current + 1) as u8 }
        } else {
            RetryDecision::Terminal
        }
    }

    pub fn new(max_retries: u8) -> (r: RetryPolicy)
        ensures
            r.max_retries == max_retries,
    {
        RetryPolicy { max_retries }
    }

    /// Another try while fewer than `max_retries` retries have been made, with the
    /// count raised by one; otherwise the failure is final.
    pub fn decide(self, current_retry_count: u8) -> (r: RetryDecision)
        ensures
            r == self.decision(current_retry_count),
    {
        if current_retry_count < self.max_retries {
            RetryDecision::Retry { next_retry_count: current_retry_count + 1 }
        } else {
            RetryDecision::Terminal
        }
    }

    /// The policy used when none is given.
    pub open spec fn default_policy_spec() -> RetryPolicy {
        RetryPolicy { max_retries: DEFAULT_MAX_RETRIES }
    }

    /// The policy used when none is given: two retries.
    pub fn default_policy() -> (r: RetryPolicy)
        ensures
            r == RetryPolicy::default_policy_spec(),
    {
        RetryPolicy { max_retries: DEFAULT_MAX_RETRIES }
    }
}

impl Default for RetryPolicy {
    fn default() -> (r: RetryPolicy)
        ensures
            r.max_retries == DEFAULT_MAX_RETRIES,
    {
        RetryPolicy::default_policy()
    }
}

/// A retried count never passes the policy's bound: each retry raises the count
/// by exactly one, and only while it is below the bound.
pub proof fn law_retry_count_stays_within_policy(policy: RetryPolicy, current: u8)
    ensures
        policy.decision(current) matches RetryDecision::Retry { next_retry_count } ==> (
        next_retry_count == current + 1 && next_retry_count <= policy.max_retries),
        policy.decision(current) is Terminal <==> current >= policy.max_retries,
{
}

} // verus!
