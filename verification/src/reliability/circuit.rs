//! A sliding-window circuit breaker for one subgraph. Times are milliseconds
//! on a clock that never goes back; callers pass the current time in.
//!
//! Closed, it lets calls through and opens when, with at least
//! `min_samples` outcomes in the window, the share of failures reaches the
//! failure ratio. Open, it refuses calls until the recovery time has passed
//! and then lets one through (half-open): a success closes it, a failure
//! opens it again.

use vstd::prelude::*;
use crate::error::SubgraphError;

verus! {

#[derive(Debug, Clone, Copy, PartialEq, Eq, Structural)]
pub struct CircuitBreakerConfig {
    /// How far back outcomes count.
    pub window_ms: u64,
    pub min_samples: usize,
    /// The failure ratio that opens the breaker, in millionths.
    pub failure_ratio_ppm: u32,
    /// How long the breaker stays open.
    pub recovery_ms: u64,
}

impl Default for CircuitBreakerConfig {
    fn default() -> (r: Self)
        ensures
            r == (CircuitBreakerConfig {
                window_ms: 60_000,
                min_samples: 8,
                failure_ratio_ppm: 500_000,
                recovery_ms: 15_000,
            }),
    {
        CircuitBreakerConfig { window_ms: 60_000, min_samples: 8, failure_ratio_ppm: 500_000, recovery_ms: 15_000 }
    }
}

/// The outcome of one call and when it ended.
#[derive(Debug, Clone, Copy, PartialEq, Eq, Structural)]
pub struct Sample {
    pub at_ms: u64,
    pub success: bool,
}

#[derive(Debug, Clone, Copy, PartialEq, Eq, Structural)]
pub enum BreakerState {
    Closed,
    Open { until_ms: u64 },
    HalfOpen,
}

/// A breaker: its settings, the outcomes still in the window (oldest first)
/// and its state.
#[derive(Debug)]
pub struct CircuitBreaker {
    pub cfg: CircuitBreakerConfig,
    pub samples: Vec<Sample>,
    pub state: BreakerState,
}

/// The samples left after dropping, from the front, those older than
/// `cutoff`.
pub open spec fn prune(s: Seq<Sample>, cutoff: u64) -> Seq<Sample>
    decreases s.len(),
{
    if s.len() > 0 && s[0].at_ms < cutoff {
        prune(s.drop_first(), cutoff)
    } else {
        s
    }
}

pub open spec fn failures(s: Seq<Sample>) -> nat
    decreases s.len(),
{
    if s.len() == 0 {
        0
    } else {
        failures(s.drop_last()) + if s.last().success {
            0nat
        } else {
            1nat
        }
    }
}

/// `failures / n` reaches `ppm / 1_000_000`.
pub open spec fn ratio_reached(fails: nat, n: nat, ppm: u32) -> bool {
    fails * 1_000_000 >= ppm * n
}

/// The state after recording an outcome at `now`, given the samples once
/// the outcome is added.
pub open spec fn state_after_record(
    state: BreakerState,
    samples: Seq<Sample>,
    success: bool,
    now: u64,
    cfg: CircuitBreakerConfig,
) -> BreakerState {
    match state {
        BreakerState::HalfOpen => if success {
            BreakerState::Closed
        } else {
            BreakerState::Open { until_ms: (now + cfg.recovery_ms) as u64 }
        },
        BreakerState::Closed => if samples.len() >= cfg.min_samples && ratio_reached(
            failures(samples),
            samples.len(),
            cfg.failure_ratio_ppm,
        ) {
            BreakerState::Open { until_ms: (now + cfg.recovery_ms) as u64 }
        } else {
            BreakerState::Closed
        },
        BreakerState::Open { .. } => state,
    }
}

/// The answer to a check at `now` and the state after it.
pub open spec fn check_outcome(state: BreakerState, now: u64) -> (Option<u64>, BreakerState) {
    match state {
        BreakerState::Open { until_ms } => if now < until_ms {
            (Some((until_ms - now) as u64), state)
        } else {
            (None, BreakerState::HalfOpen)
        },
        _ => (None, state),
    }
}

impl CircuitBreaker {
    /// A closed breaker with no outcomes.
    pub fn new(cfg: CircuitBreakerConfig) -> (r: Self)
        ensures
            r.cfg == cfg,
            r.samples@ == Seq::<Sample>::empty(),
            r.state == BreakerState::Closed,
    {
        CircuitBreaker { cfg, samples: Vec::new(), state: BreakerState::Closed }
    }

    /// Drops the outcomes that left the window.
    pub fn prune_static(cfg: &CircuitBreakerConfig, samples: &mut Vec<Sample>, now: u64)
        requires
            cfg.window_ms <= now,
        ensures
            final(samples)@ == prune(old(samples)@, (now - cfg.window_ms) as u64),
    {
        let cutoff = now - cfg.window_ms;
        let ghost start = samples@;
        while samples.len() > 0 && samples[0].at_ms < cutoff
            invariant
                prune(start, cutoff) == prune(samples@, cutoff),
            decreases samples.len(),
        {
            let ghost before = samples@;
            samples.remove(0);
            assert(samples@ =~= before.drop_first());
        }
    }

    /// Whether a call may go out at `now`: refused with the time left while
    /// open; the first check after the recovery time half-opens the breaker.
    pub fn check(&mut self, now: u64) -> (r: Result<(), SubgraphError>)
        requires
            old(self).cfg.window_ms <= now,
        ensures
            final(self).cfg == old(self).cfg,
            final(self).samples@ == prune(old(self).samples@, (now - old(self).cfg.window_ms) as u64),
            final(self).state == check_outcome(old(self).state, now).1,
            match check_outcome(old(self).state, now).0 {
                Some(wait) => r matches Err(SubgraphError::CircuitOpen { retry_after_ms }) && retry_after_ms
                    == wait,
                None => r is Ok,
            },
    {
        Self::prune_static(&self.cfg, &mut self.samples, now);
        match self.state {
            BreakerState::Open { until_ms } => {
                if now < until_ms {
                    Err(SubgraphError::CircuitOpen { retry_after_ms: until_ms - now })
                } else {
                    self.state = BreakerState::HalfOpen;
                    Ok(())
                }
            },
            _ => Ok(()),
        }
    }

    /// Records the outcome of a call that ended at `now`.
    pub fn record(&mut self, success: bool, now: u64)
        requires
            old(self).cfg.window_ms <= now,
            now + old(self).cfg.recovery_ms <= u64::MAX,
        ensures
            final(self).cfg == old(self).cfg,
            final(self).samples@ == prune(old(self).samples@, (now - old(self).cfg.window_ms) as u64).push(
                Sample { at_ms: now, success },
            ),
            final(self).state == state_after_record(
                old(self).state,
                final(self).samples@,
                success,
                now,
                old(self).cfg,
            ),
    {
        Self::prune_static(&self.cfg, &mut self.samples, now);
        self.samples.push(Sample { at_ms: now, success });
        match self.state {
            BreakerState::HalfOpen => {
                if success {
                    self.state = BreakerState::Closed;
                } else {
                    self.state = BreakerState::Open { until_ms: now + self.cfg.recovery_ms };
                }
            },
            BreakerState::Closed => {
                let n = self.samples.len();
                if n >= self.cfg.min_samples {
                    let fails = count_failures(&self.samples);
                    let lhs: u128 = (fails as u128) * 1_000_000;
                    let p: u128 = self.cfg.failure_ratio_ppm as u128;
                    let nn: u128 = n as u128;
                    assert(p * nn <= 0xffff_ffff_0000_0000_0000_0000u128) by (nonlinear_arith)
                        requires
                            p <= 0xffff_ffffu128,
                            nn <= 0xffff_ffff_ffff_ffffu128,
                    ;
                    let rhs: u128 = p * nn;
                    if lhs >= rhs {
                        self.state = BreakerState::Open { until_ms: now + self.cfg.recovery_ms };
                    }
                }
            },
            BreakerState::Open { .. } => {},
        }
    }
}

proof fn lemma_failures_bound(s: Seq<Sample>)
    ensures
        failures(s) <= s.len(),
    decreases s.len(),
{
    if s.len() > 0 {
        lemma_failures_bound(s.drop_last());
    }
}

/// The number of failed outcomes among `samples`.
pub fn count_failures(samples: &Vec<Sample>) -> (r: usize)
    ensures
        r == failures(samples@),
{
    let mut n: usize = 0;
    let mut i: usize = 0;
    while i < samples.len()
        invariant
            i <= samples.len(),
            n == failures(samples@.take(i as int)),
        decreases samples.len() - i,
    {
        assert(samples@.take(i + 1).drop_last() =~= samples@.take(i as int));
        proof {
            lemma_failures_bound(samples@.take(i as int));
        }
        if !samples[i].success {
            n = n + 1;
        }
        i = i + 1;
    }
    assert(samples@.take(samples.len() as int) =~= samples@);
    n
}

/// One breaker per subgraph name, each closed and empty.
pub fn breakers_for_subgraphs(names: &Vec<String>, cfg: CircuitBreakerConfig) -> (r: Vec<(String, CircuitBreaker)>)
    ensures
        r@.len() == names@.len(),
        forall|i: int|
            #![trigger r@[i]]
            0 <= i < names@.len() ==> r@[i].0@ == names@[i]@ && r@[i].1.cfg == cfg && r@[i].1.samples@.len()
                == 0 && r@[i].1.state == BreakerState::Closed,
{
    let mut out: Vec<(String, CircuitBreaker)> = Vec::new();
    let mut i: usize = 0;
    while i < names.len()
        invariant
            i <= names.len(),
            out@.len() == i,
            forall|k: int|
                #![trigger out@[k]]
                0 <= k < i ==> out@[k].0@ == names@[k]@ && out@[k].1.cfg == cfg
                    && out@[k].1.samples@.len() == 0 && out@[k].1.state == BreakerState::Closed,
        decreases names.len() - i,
    {
        out.push((names[i].clone(), CircuitBreaker::new(cfg)));
        i = i + 1;
    }
    out
}

/// After a failed half-open trial, the breaker refuses every call until the
/// recovery time has passed again, telling the caller how long is left.
pub proof fn lemma_failed_trial_reopens(now: u64, t: u64, samples: Seq<Sample>, cfg: CircuitBreakerConfig)
    requires
        now + cfg.recovery_ms <= u64::MAX,
        now <= t < now + cfg.recovery_ms,
    ensures
        ({
            let s = state_after_record(BreakerState::HalfOpen, samples, false, now, cfg);
            check_outcome(s, t) == (Some((now + cfg.recovery_ms - t) as u64), s)
        }),
{
}

/// A successful half-open trial closes the breaker, and a closed breaker
/// lets every call through.
pub proof fn lemma_successful_trial_closes(now: u64, t: u64, samples: Seq<Sample>, cfg: CircuitBreakerConfig)
    ensures
        state_after_record(BreakerState::HalfOpen, samples, true, now, cfg) == BreakerState::Closed,
        check_outcome(BreakerState::Closed, t) == (None::<u64>, BreakerState::Closed),
{
}

/// The failed outcomes among `s`, in order.
pub open spec fn failed_samples(s: Seq<Sample>) -> Seq<Sample> {
    s.filter(|x: Sample| !x.success)
}

proof fn lemma_failures_are_failed_samples(s: Seq<Sample>)
    ensures
        failures(s) == failed_samples(s).len(),
    decreases s.len(),
{
    reveal(Seq::filter);
    if s.len() > 0 {
        lemma_failures_are_failed_samples(s.drop_last());
    }
}

proof fn lemma_no_failures(s: Seq<Sample>)
    requires
        forall|i: int| 0 <= i < s.len() ==> #[trigger] s[i].success,
    ensures
        failures(s) == 0,
    decreases s.len(),
{
    if s.len() > 0 {
        assert forall|i: int| 0 <= i < s.drop_last().len() implies #[trigger] s.drop_last()[i].success by {
            assert(s.drop_last()[i] == s[i]);
        }
        lemma_no_failures(s.drop_last());
        assert(s.last() == s[s.len() - 1]);
    }
}

/// A closed breaker that records an outcome opens exactly when the window,
/// that outcome included, holds at least `min_samples` outcomes and its
/// failed outcomes make up at least the failure ratio of them. So a window
/// of successes never opens it while the ratio is above zero.
pub proof fn lemma_closed_opens_on_failure_ratio(
    samples: Seq<Sample>,
    success: bool,
    now: u64,
    cfg: CircuitBreakerConfig,
)
    ensures
        state_after_record(BreakerState::Closed, samples, success, now, cfg) is Open <==> samples.len()
            >= cfg.min_samples && failed_samples(samples).len() * 1_000_000 >= cfg.failure_ratio_ppm
            * samples.len(),
        (forall|i: int| 0 <= i < samples.len() ==> #[trigger] samples[i].success) && cfg.failure_ratio_ppm > 0
            && samples.len() > 0 ==> state_after_record(BreakerState::Closed, samples, success, now, cfg)
            == BreakerState::Closed,
{
    lemma_failures_are_failed_samples(samples);
    if (forall|i: int| 0 <= i < samples.len() ==> #[trigger] samples[i].success) && cfg.failure_ratio_ppm > 0
        && samples.len() > 0 {
        lemma_no_failures(samples);
        assert(cfg.failure_ratio_ppm * samples.len() > 0) by (nonlinear_arith)
            requires
                cfg.failure_ratio_ppm > 0,
                samples.len() > 0,
        ;
    }
}

/// With fewer outcomes in the window than the minimum, a closed breaker
/// stays closed whatever the outcomes were.
pub proof fn lemma_closed_below_min_samples(samples: Seq<Sample>, success: bool, now: u64, cfg: CircuitBreakerConfig)
    requires
        samples.len() < cfg.min_samples,
    ensures
        state_after_record(BreakerState::Closed, samples, success, now, cfg) == BreakerState::Closed,
{
}

/// Once the recovery time has passed, an open breaker lets exactly one check
/// through and becomes half-open.
pub proof fn lemma_open_recovers(until_ms: u64, t: u64)
    requires
        until_ms <= t,
    ensures
        check_outcome(BreakerState::Open { until_ms }, t) == (None::<u64>, BreakerState::HalfOpen),
{
}

} // verus!
