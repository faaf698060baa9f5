//! What a subgraph call does after each attempt: reads (never mutations)
//! are retried on transient errors, with exponential backoff up to a cap.

use vstd::prelude::*;
use crate::config::ReliabilityConfig;
use crate::error::SubgraphError;
use crate::graphql::types::GraphQLResponse;
use crate::reliability::circuit::{prune, state_after_record, CircuitBreaker, Sample};
use crate::json::Json;
use crate::plan::types::OperationKind;

verus! {

/// One HTTP POST to a subgraph's `/graphql`.
#[derive(Debug)]
pub struct SubgraphHttpCall {
    pub subgraph: String,
    pub url: String,
    /// The JSON request body.
    pub body: Json,
    pub headers: Vec<(&'static str, String)>,
    pub timeout_ms: u64,
    pub operation: OperationKind,
}

/// How many times, and how far apart, failed reads are tried again.
#[derive(Debug, Clone, Copy, PartialEq, Eq, Structural)]
pub struct RetryPolicy {
    pub max_retries: u32,
    pub initial_backoff_ms: u64,
    pub max_backoff_ms: u64,
}

impl RetryPolicy {
    pub fn from_config(cfg: &ReliabilityConfig) -> (r: RetryPolicy)
        ensures
            r.max_retries == cfg.retry_max_attempts,
            r.initial_backoff_ms == cfg.retry_initial_backoff_ms,
            r.max_backoff_ms == cfg.retry_max_backoff_ms,
    {
        RetryPolicy {
            max_retries: cfg.retry_max_attempts,
            initial_backoff_ms: cfg.retry_initial_backoff_ms,
            max_backoff_ms: cfg.retry_max_backoff_ms,
        }
    }

    /// Attempts in all: the first and the retries.
    pub fn max_attempts(&self) -> (r: u32)
        requires
            self.max_retries < u32::MAX,
        ensures
            r == self.max_retries + 1,
    {
        1 + self.max_retries
    }
}

pub open spec fn two_pow(n: nat) -> nat
    decreases n,
{
    if n == 0 {
        1
    } else {
        2 * two_pow((n - 1) as nat)
    }
}

/// `2u32.saturating_pow(attempt)`.
pub open spec fn backoff_factor(attempt: u32) -> nat {
    if attempt < 32 {
        two_pow(attempt as nat)
    } else {
        u32::MAX as nat
    }
}

/// The wait before retry number `attempt + 1`: `initial * 2^attempt`,
/// capped at `cap`.
pub open spec fn backoff_spec(attempt: u32, initial_ms: u64, cap_ms: u64) -> u64 {
    let ms = initial_ms * backoff_factor(attempt);
    if ms < cap_ms {
        ms as u64
    } else {
        cap_ms
    }
}

proof fn lemma_two_pow_monotone(m: nat, n: nat)
    requires
        m <= n,
    ensures
        1 <= two_pow(m) <= two_pow(n),
    decreases n,
{
    if n > m {
        lemma_two_pow_monotone(m, (n - 1) as nat);
    } else if n > 0 {
        lemma_two_pow_monotone(0, (n - 1) as nat);
    }
}

proof fn lemma_two_pow_bound(n: nat)
    requires
        n <= 30,
    ensures
        1 <= two_pow(n) <= 0x4000_0000,
{
    reveal_with_fuel(two_pow, 31);
    assert(two_pow(30) == 0x4000_0000);
    lemma_two_pow_monotone(n, 30);
}

/// The wait, in milliseconds, before the retry after attempt `attempt`
/// (counted from 0).
pub fn backoff(attempt: u32, initial_ms: u64, cap_ms: u64) -> (r: u64)
    ensures
        r == backoff_spec(attempt, initial_ms, cap_ms),
{
    let factor: u32 = if attempt >= 32 {
        u32::MAX
    } else {
        let mut f: u32 = 1;
        let mut k: u32 = 0;
        while k < attempt
            invariant
                k <= attempt < 32,
                f == two_pow(k as nat),
            decreases attempt - k,
        {
            proof {
                lemma_two_pow_bound(k as nat);
            }
            f = f * 2;
            k = k + 1;
        }
        f
    };
    let a: u128 = initial_ms as u128;
    let b: u128 = factor as u128;
    assert(a * b <= 0xffff_ffff_ffff_ffff_0000_0000u128) by (nonlinear_arith)
        requires
            a <= 0xffff_ffff_ffff_ffffu128,
            b <= 0xffff_ffffu128,
    ;
    let ms: u128 = a * b;
    assert(ms == initial_ms * backoff_factor(attempt));
    if ms < cap_ms as u128 {
        ms as u64
    } else {
        cap_ms
    }
}

pub open spec fn retryable_spec(e: SubgraphError) -> bool {
    match e {
        SubgraphError::Timeout(_) => true,
        SubgraphError::Transport(_) => true,
        SubgraphError::BadStatus { status, .. } => status == 408 || status == 425 || status == 429
            || status == 500 || status == 502 || status == 503 || status == 504,
        _ => false,
    }
}

/// Timeouts, transport errors and the transient HTTP statuses (408, 425,
/// 429, 500, 502, 503, 504) may succeed on another try.
pub fn retryable_error(e: &SubgraphError) -> (r: bool)
    ensures
        r == retryable_spec(*e),
{
    match e {
        SubgraphError::Timeout(_) => true,
        SubgraphError::Transport(_) => true,
        SubgraphError::BadStatus { status, .. } => *status == 408 || *status == 425 || *status == 429
            || *status == 500 || *status == 502 || *status == 503 || *status == 504,
        SubgraphError::Decode(_) => false,
        SubgraphError::CircuitOpen { .. } => false,
    }
}

/// Whether attempt `attempt` (counted from 0) that failed with `e` is tried
/// again.
pub open spec fn retries(op: OperationKind, attempt: u32, max_attempts: u32, e: SubgraphError) -> bool {
    op == OperationKind::Query && attempt + 1 < max_attempts && retryable_spec(e)
}

/// After attempt `attempt` failed with `e`: `Ok(wait)` to try again after
/// `wait` milliseconds, or `Err(e)` to give up with that error.
pub fn after_failure(
    policy: &RetryPolicy,
    op: OperationKind,
    attempt: u32,
    max_attempts: u32,
    e: SubgraphError,
) -> (r: Result<u64, SubgraphError>)
    requires
        attempt < max_attempts,
    ensures
        retries(op, attempt, max_attempts, e) ==> r == Ok::<u64, SubgraphError>(
            backoff_spec(attempt, policy.initial_backoff_ms, policy.max_backoff_ms),
        ),
        !retries(op, attempt, max_attempts, e) ==> r == Err::<u64, SubgraphError>(e),
{
    let can_retry = op == OperationKind::Query && attempt + 1 < max_attempts && retryable_error(&e);
    if can_retry {
        Ok(backoff(attempt, policy.initial_backoff_ms, policy.max_backoff_ms))
    } else {
        Err(e)
    }
}

/// A response with a 2xx status counts as answered; any other is a
/// `BadStatus` error carrying the body.
pub fn classify_status(status: u16, body: String) -> (r: Result<(), SubgraphError>)
    ensures
        200 <= status <= 299 ==> r is Ok,
        !(200 <= status <= 299) ==> (r matches Err(SubgraphError::BadStatus { status: s, body: b }) && s
            == status && b@ == body@),
{
    if 200 <= status && status <= 299 {
        Ok(())
    } else {
        Err(SubgraphError::BadStatus { status, body })
    }
}

/// Mutations are never retried.
pub proof fn lemma_mutations_never_retry(attempt: u32, max_attempts: u32, e: SubgraphError)
    ensures
        !retries(OperationKind::Mutation, attempt, max_attempts, e),
{
}

/// The backoff never exceeds its cap, and doubles from one retry to the next
/// until it reaches the cap.
pub proof fn lemma_backoff_capped_doubling(attempt: u32, initial_ms: u64, cap_ms: u64)
    requires
        attempt < 31,
    ensures
        backoff_spec(attempt, initial_ms, cap_ms) <= cap_ms,
        backoff_spec((attempt + 1) as u32, initial_ms, cap_ms) == if 2 * (initial_ms * two_pow(
            attempt as nat,
        )) < cap_ms {
            2 * backoff_spec(attempt, initial_ms, cap_ms)
        } else {
            cap_ms as int
        },
{
    assert(two_pow((attempt + 1) as nat) == 2 * two_pow(attempt as nat));
    assert(initial_ms * two_pow((attempt + 1) as nat) == 2 * (initial_ms * two_pow(attempt as nat)))
        by (nonlinear_arith)
        requires
            two_pow((attempt + 1) as nat) == 2 * two_pow(attempt as nat),
    ;
    if 2 * (initial_ms * two_pow(attempt as nat)) < cap_ms {
        assert(initial_ms * two_pow(attempt as nat) < cap_ms) by (nonlinear_arith)
            requires
                2 * (initial_ms * two_pow(attempt as nat)) < cap_ms,
        ;
    }
}


/// The error of a call to a subgraph that has no circuit breaker.
pub fn no_breaker_error(subgraph: &str) -> (e: SubgraphError)
    ensures
        e matches SubgraphError::Transport(m) && m@ == "no circuit breaker for subgraph \""@ + subgraph@ + "\""@,
{
    let mut m = "no circuit breaker for subgraph \"".to_owned();
    m.append(subgraph);
    m.append("\"");
    SubgraphError::Transport(m)
}

/// What the dispatch loop does after an attempt.
#[derive(Debug)]
pub enum AfterAttempt {
    /// Wait this many milliseconds, then check the breaker and try again.
    Retry { wait_ms: u64 },
    /// The call's answer.
    Finish(Result<GraphQLResponse, SubgraphError>),
}

/// Settles attempt `attempt` (counted from 0) of `max_attempts`, after the
/// breaker let it through and it came back with `outcome` at `now`: the
/// outcome is recorded on the breaker (success exactly when it is `Ok`);
/// an answer is returned as is; a failure is retried after the backoff when
/// [`retries`] says so, and is the call's error otherwise.
pub fn settle_attempt(
    breaker: &mut CircuitBreaker,
    policy: &RetryPolicy,
    op: OperationKind,
    attempt: u32,
    max_attempts: u32,
    outcome: Result<GraphQLResponse, SubgraphError>,
    now: u64,
) -> (r: AfterAttempt)
    requires
        attempt < max_attempts,
        old(breaker).cfg.window_ms <= now,
        now + old(breaker).cfg.recovery_ms <= u64::MAX,
    ensures
        final(breaker).cfg == old(breaker).cfg,
        final(breaker).samples@ == prune(old(breaker).samples@, (now - old(breaker).cfg.window_ms) as u64).push(
            Sample { at_ms: now, success: outcome is Ok },
        ),
        final(breaker).state == state_after_record(
            old(breaker).state,
            final(breaker).samples@,
            outcome is Ok,
            now,
            old(breaker).cfg,
        ),
        match outcome {
            Ok(resp) => r == AfterAttempt::Finish(Ok::<GraphQLResponse, SubgraphError>(resp)),
            Err(e) => if retries(op, attempt, max_attempts, e) {
                r == AfterAttempt::Retry {
                    wait_ms: backoff_spec(attempt, policy.initial_backoff_ms, policy.max_backoff_ms),
                }
            } else {
                r == AfterAttempt::Finish(Err::<GraphQLResponse, SubgraphError>(e))
            },
        },
{
    breaker.record(outcome.is_ok(), now);
    match outcome {
        Ok(resp) => AfterAttempt::Finish(Ok(resp)),
        Err(e) => match after_failure(policy, op, attempt, max_attempts, e) {
            Ok(wait_ms) => AfterAttempt::Retry { wait_ms },
            Err(e) => AfterAttempt::Finish(Err(e)),
        },
    }
}

} // verus!
