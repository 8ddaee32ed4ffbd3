//! Per-endpoint circuit breaker.
//!
//! A breaker tracks consecutive failures of one upstream endpoint and gates
//! routing attempts: `Closed` admits traffic, `Open` refuses it until the
//! cool-down elapses, after which exactly one trial connection is permitted
//! (`HalfOpen`).  Recording an outcome is the only mutator besides the
//! cool-down check performed when a route is requested.

use vstd::prelude::*;

verus! {

/// The state of one endpoint's breaker.  `Open` remembers when it opened so
/// the cool-down can be measured; all times are milliseconds on the caller's
/// monotonic clock.
#[derive(Clone, Copy, PartialEq, Eq, Structural, Debug)]
pub enum CircuitState {
    /// Normal routing allowed.
    Closed,
    /// Routing refused since the recorded instant.
    Open(u64),
    /// The cool-down elapsed and the single trial is in flight.
    HalfOpen,
}

/// Failure-tracking state machine for one upstream endpoint.
#[derive(Clone, Copy, PartialEq, Eq, Structural, Debug)]
pub struct CircuitBreaker {
    /// Consecutive failures that trip the breaker.
    pub failure_threshold: u32,
    /// Milliseconds an opened breaker refuses traffic.
    pub cool_down_ms: u64,
    /// Current gate state.
    pub state: CircuitState,
    /// Consecutive recorded failures since the last success.
    pub consecutive_failures: u32,
}

impl CircuitBreaker {
    /// Structural soundness: a positive threshold.
    pub open spec fn wf(&self) -> bool {
        self.failure_threshold >= 1
    }

    /// Whether the endpoint is admitted at `now_ms`: `Closed` always,
    /// `HalfOpen` never (its one trial is already in flight), `Open` only
    /// once the cool-down has elapsed.  Route selection reads exactly this.
    pub open spec fn spec_admissible(&self, now_ms: u64) -> bool {
        match self.state {
            CircuitState::Closed => true,
            CircuitState::HalfOpen => false,
            CircuitState::Open(at) => now_ms >= at + self.cool_down_ms,
        }
    }

    /// The breaker after one recorded failure at `now_ms`: the streak grows
    /// by one; a failure during the `HalfOpen` trial, or the failure that
    /// reaches the threshold while `Closed`, opens the breaker at `now_ms`.
    pub open spec fn spec_record_failure(self, now_ms: u64) -> CircuitBreaker {
        let streak: u32 = if self.consecutive_failures == u32::MAX {
            u32::MAX
        } else {
            (self.consecutive_failures + 1) as u32
        };
        let next_state = match self.state {
            CircuitState::HalfOpen => CircuitState::Open(now_ms),
            CircuitState::Closed => if streak >= self.failure_threshold {
                CircuitState::Open(now_ms)
            } else {
                CircuitState::Closed
            },
            CircuitState::Open(at) => CircuitState::Open(at),
        };
        CircuitBreaker { state: next_state, consecutive_failures: streak, ..self }
    }

    /// A new breaker in the `Closed` state with no recorded failures.
    pub fn new(failure_threshold: u32, cool_down_ms: u64) -> (r: CircuitBreaker)
        requires
            failure_threshold >= 1,
        ensures
            r.wf(),
            r.state == CircuitState::Closed,
            r.consecutive_failures == 0,
            r.failure_threshold == failure_threshold,
            r.cool_down_ms == cool_down_ms,
    {
        CircuitBreaker {
            failure_threshold,
            cool_down_ms,
            state: CircuitState::Closed,
            consecutive_failures: 0,
        }
    }

    /// Whether a routing attempt to this endpoint is admissible at `now_ms`,
    /// transitioning `Open` to `HalfOpen` when the cool-down has elapsed so
    /// that exactly one trial is permitted until an outcome is recorded.
    pub fn check(&mut self, now_ms: u64) -> (r: bool)
        ensures
            r == old(self).spec_admissible(now_ms),
            final(self).failure_threshold == old(self).failure_threshold,
            final(self).cool_down_ms == old(self).cool_down_ms,
            final(self).consecutive_failures == old(self).consecutive_failures,
            final(self).state == if (old(self).state matches CircuitState::Open(_)) && r {
                CircuitState::HalfOpen
            } else {
                old(self).state
            },
    {
        match self.state {
            CircuitState::Closed => true,
            CircuitState::HalfOpen => false,
            CircuitState::Open(at) => {
                if now_ms >= at && now_ms - at >= self.cool_down_ms {
                    self.state = CircuitState::HalfOpen;
                    true
                } else {
                    false
                }
            }
        }
    }

    /// Read-only admissibility: what `check` would answer, without the
    /// `Open` to `HalfOpen` transition.  Route selection scans endpoints
    /// with this and performs the mutating `check` only on the endpoint it
    /// picks.
    pub fn is_admissible(&self, now_ms: u64) -> (r: bool)
        ensures
            r == self.spec_admissible(now_ms),
    {
        match self.state {
            CircuitState::Closed => true,
            CircuitState::HalfOpen => false,
            CircuitState::Open(at) => now_ms >= at && now_ms - at >= self.cool_down_ms,
        }
    }

    /// Record a failed outcome at `now_ms`.
    pub fn record_failure(&mut self, now_ms: u64)
        ensures
            *final(self) == old(self).spec_record_failure(now_ms),
    {
        if self.consecutive_failures < u32::MAX {
            self.consecutive_failures = self.consecutive_failures + 1;
        }
        match self.state {
            CircuitState::HalfOpen => {
                self.state = CircuitState::Open(now_ms);
            }
            CircuitState::Closed => {
                if self.consecutive_failures >= self.failure_threshold {
                    self.state = CircuitState::Open(now_ms);
                }
            }
            CircuitState::Open(_) => {}
        }
    }

    /// Record a successful outcome: the failure streak resets and the
    /// breaker closes (in particular, a successful `HalfOpen` trial returns
    /// to `Closed`).
    pub fn record_success(&mut self)
        ensures
            final(self).failure_threshold == old(self).failure_threshold,
            final(self).cool_down_ms == old(self).cool_down_ms,
            final(self).state == CircuitState::Closed,
            final(self).consecutive_failures == 0,
    {
        self.consecutive_failures = 0;
        self.state = CircuitState::Closed;
    }
}

/// `b` after `times` consecutive recorded failures, all at `now_ms`.
pub open spec fn failures_applied(b: CircuitBreaker, times: nat, now_ms: u64) -> CircuitBreaker
    decreases times,
{
    if times == 0 {
        b
    } else {
        failures_applied(b, (times - 1) as nat, now_ms).spec_record_failure(now_ms)
    }
}

/// Law: a fresh (closed, zero-streak) breaker stays closed through the
/// first `failure_threshold - 1` consecutive failures, transitions to
/// `Open` on the failure that reaches the threshold, then refuses every
/// attempt until the cool-down has elapsed, after which exactly one trial
/// is permitted: the first cool-down check admits and leaves the breaker
/// `HalfOpen`, which refuses all further attempts until an outcome is
/// recorded.
pub proof fn lemma_breaker_trip_and_single_trial(
    b: CircuitBreaker,
    k: nat,
    t_fail: u64,
    t_probe: u64,
)
    requires
        b.wf(),
        b.state == CircuitState::Closed,
        b.consecutive_failures == 0,
        b.failure_threshold < u32::MAX,
        k <= b.failure_threshold,
    ensures
        k < b.failure_threshold ==> failures_applied(b, k, t_fail) == (CircuitBreaker {
            state: CircuitState::Closed,
            consecutive_failures: k as u32,
            ..b
        }),
        k == b.failure_threshold ==> {
            let tripped = failures_applied(b, k, t_fail);
            &&& tripped.state == CircuitState::Open(t_fail)
            &&& (tripped.spec_admissible(t_probe) <==> t_probe >= t_fail + b.cool_down_ms)
            &&& !(CircuitBreaker { state: CircuitState::HalfOpen, ..tripped })
                .spec_admissible(t_probe)
        },
    decreases k,
{
    if k > 0 {
        lemma_breaker_trip_and_single_trial(b, (k - 1) as nat, t_fail, t_probe);
    }
}

} // verus!
