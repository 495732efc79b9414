//! Retry on error for any agent; only errors are retried, not answers the
//! caller dislikes.
use vstd::prelude::*;

verus! {

/// Wraps an agent and retries a failed run, up to `max_retries` times, with
/// a fixed delay between attempts.
pub struct RetryAgent<A> {
    inner: A,
    max_retries: u32,
    delay_ms: u64,
}

/// What to do after a failed attempt.
#[derive(Debug, PartialEq, Eq, Structural)]
pub enum RetryDecision {
    /// Wait this many milliseconds (none when zero), then run again.
    Retry { delay_ms: u64 },
    /// Report the error.
    GiveUp,
}

impl<A> RetryAgent<A> {
    pub closed spec fn inner_spec(&self) -> A {
        self.inner
    }

    pub closed spec fn max_retries_spec(&self) -> u32 {
        self.max_retries
    }

    pub closed spec fn delay_spec(&self) -> u64 {
        self.delay_ms
    }

    /// Retries up to `max_retries` times, without delay.
    pub fn new(inner: A, max_retries: u32) -> (r: Self)
        ensures
            r.inner_spec() == inner,
            r.max_retries_spec() == max_retries,
            r.delay_spec() == 0,
    {
        RetryAgent { inner, max_retries, delay_ms: 0 }
    }

    /// Fixed delay between attempts.
    pub fn with_delay_ms(self, ms: u64) -> (r: Self)
        ensures
            r.inner_spec() == self.inner_spec(),
            r.max_retries_spec() == self.max_retries_spec(),
            r.delay_spec() == ms,
    {
        RetryAgent { delay_ms: ms, ..self }
    }

    pub fn inner(&self) -> (r: &A)
        ensures
            *r == self.inner_spec(),
    {
        &self.inner
    }

    /// After `failed` failed attempts have been retried, whether the next
    /// failure is retried.
    pub fn after_failure(&self, failed: u32) -> (r: RetryDecision)
        ensures
            failed < self.max_retries_spec() ==> r == (RetryDecision::Retry { delay_ms: self.delay_spec() }),
            failed >= self.max_retries_spec() ==> r == RetryDecision::GiveUp,
    {
        if failed >= self.max_retries {
            RetryDecision::GiveUp
        } else {
            RetryDecision::Retry { delay_ms: self.delay_ms }
        }
    }
}

/// How many times the inner agent runs when attempt `k` (from zero)
/// succeeds exactly where `succeeds[k]` holds (attempts past the list fail),
/// after `failed` failures so far: each failure is retried while fewer than
/// `max_retries` were, as [`RetryAgent::after_failure`] decides.
pub open spec fn runs(succeeds: Seq<bool>, max_retries: nat, failed: nat) -> nat
    decreases max_retries - failed,
{
    if failed < succeeds.len() && succeeds[failed as int] {
        failed + 1
    } else if failed < max_retries {
        runs(succeeds, max_retries, failed + 1)
    } else {
        failed + 1
    }
}

/// The inner agent runs at most `max_retries + 1` times, and stops at the
/// first success.
pub proof fn law_retry_runs_bounded(succeeds: Seq<bool>, max_retries: nat)
    ensures
        1 <= runs(succeeds, max_retries, 0) <= max_retries + 1,
        forall|k: int| 0 <= k < runs(succeeds, max_retries, 0) - 1 ==> !(k < succeeds.len() && succeeds[k]),
{
    lemma_runs(succeeds, max_retries, 0);
}

proof fn lemma_runs(succeeds: Seq<bool>, max_retries: nat, failed: nat)
    requires
        failed <= max_retries,
    ensures
        failed + 1 <= runs(succeeds, max_retries, failed) <= max_retries + 1,
        forall|k: int| failed <= k < runs(succeeds, max_retries, failed) - 1 ==> !(k < succeeds.len() && succeeds[k]),
    decreases max_retries - failed,
{
    if failed < succeeds.len() && succeeds[failed as int] {
    } else if failed < max_retries {
        lemma_runs(succeeds, max_retries, failed + 1);
    }
}

} // verus!
