//! Token-bucket admission control, scoped per connection source.
//!
//! Each source owns a bucket that refills at a configured rate up to a
//! configured burst capacity.  `try_admit` either consumes one token and
//! succeeds immediately or fails fast — it never queues.  Tokens
//! are accounted in thousandths so that sub-second refill needs no
//! floating point.

use vstd::prelude::*;

verus! {

/// Milli-tokens per whole token.
pub const TOKEN_SCALE: u64 = 1000;
/// Largest accepted burst capacity, in whole tokens.
pub const MAX_BURST: u64 = 1000000;
/// Largest accepted refill rate, in milli-tokens per second.
pub const MAX_RATE: u64 = 1000000;

/// Per-source token bucket.  Times are milliseconds on the caller's
/// monotonic clock; `rate_milli_per_sec` of 1000 means one token per
/// second.
#[derive(Clone, Copy, PartialEq, Eq, Structural, Debug)]
pub struct RateBudget {
    /// Refill rate in milli-tokens per second.
    pub rate_milli_per_sec: u64,
    /// Capacity in whole tokens.
    pub burst: u64,
    /// Current fill in milli-tokens.
    pub tokens_milli: u64,
    /// Instant of the last refill.
    pub last_refill_ms: u64,
}

impl RateBudget {
    /// Structural soundness: bounded parameters and a fill within capacity.
    pub open spec fn wf(&self) -> bool {
        &&& 1 <= self.burst <= MAX_BURST
        &&& self.rate_milli_per_sec <= MAX_RATE
        &&& self.tokens_milli <= self.burst * TOKEN_SCALE
    }

    /// The fill after refilling at `now_ms`: grown by elapsed time times
    /// the rate, capped at the burst capacity.  A clock that has not moved
    /// (or moved backwards) refills nothing.
    pub open spec fn spec_refilled(&self, now_ms: u64) -> int {
        if now_ms > self.last_refill_ms {
            let grown = self.tokens_milli
                + (now_ms - self.last_refill_ms) * self.rate_milli_per_sec / (TOKEN_SCALE as int);
            if grown >= self.burst * TOKEN_SCALE {
                self.burst * TOKEN_SCALE
            } else {
                grown
            }
        } else {
            self.tokens_milli as int
        }
    }

    /// Whether an admission at `now_ms` succeeds: the refilled bucket holds
    /// at least one whole token.
    pub open spec fn spec_admits(&self, now_ms: u64) -> bool {
        self.spec_refilled(now_ms) >= TOKEN_SCALE
    }

    /// A full bucket created at `now_ms`.
    pub fn new(rate_milli_per_sec: u64, burst: u64, now_ms: u64) -> (r: RateBudget)
        requires
            1 <= burst <= MAX_BURST,
            rate_milli_per_sec <= MAX_RATE,
        ensures
            r.wf(),
            r.rate_milli_per_sec == rate_milli_per_sec,
            r.burst == burst,
            r.tokens_milli == burst * TOKEN_SCALE,
            r.last_refill_ms == now_ms,
    {
        RateBudget {
            rate_milli_per_sec,
            burst,
            tokens_milli: burst * TOKEN_SCALE,
            last_refill_ms: now_ms,
        }
    }

    /// Admit one request at `now_ms`: refill, then either spend one token
    /// and succeed or leave the bucket unchanged and fail fast.
    pub fn try_admit(&mut self, now_ms: u64) -> (r: bool)
        requires
            old(self).wf(),
        ensures
            final(self).wf(),
            r == old(self).spec_admits(now_ms),
            final(self).rate_milli_per_sec == old(self).rate_milli_per_sec,
            final(self).burst == old(self).burst,
            final(self).tokens_milli ==
                old(self).spec_refilled(now_ms) - (if r { TOKEN_SCALE as int } else { 0 }),
            final(self).last_refill_ms ==
                if now_ms > old(self).last_refill_ms { now_ms } else { old(self).last_refill_ms },
    {
        if now_ms > self.last_refill_ms {
            let delta: u64 = now_ms - self.last_refill_ms;
            let cap: u64 = self.burst * TOKEN_SCALE;
            proof {
                assert((delta as int) * (self.rate_milli_per_sec as int)
                    <= (u64::MAX as int) * (MAX_RATE as int)) by (nonlinear_arith)
                    requires
                        0 <= delta as int <= u64::MAX as int,
                        0 <= self.rate_milli_per_sec as int <= MAX_RATE as int,
                ;
            }
            let grown: u128 =
                self.tokens_milli as u128 + (delta as u128) * (self.rate_milli_per_sec as u128)
                    / (TOKEN_SCALE as u128);
            self.tokens_milli = if grown >= cap as u128 { cap } else { grown as u64 };
            self.last_refill_ms = now_ms;
        }
        if self.tokens_milli >= TOKEN_SCALE {
            self.tokens_milli = self.tokens_milli - TOKEN_SCALE;
            true
        } else {
            false
        }
    }
}

/// Law: a bucket configured as one token per second with burst one admits
/// a first request at `t0`, rejects a second request at any `t1` less than
/// a second later (the rejected probe still refills what little has
/// accrued), and admits again at any `t2` at least a full second after
/// `t0`.  The three bucket values named here are exactly the ones
/// `try_admit`'s contract produces for this call sequence.
pub proof fn lemma_one_per_second_bucket(t0: u64, t1: u64, t2: u64)
    requires
        t0 <= t1,
        t1 < t0 + 1000,
        t2 >= t0 + 1000,
    ensures
        ({
            let fresh = RateBudget {
                rate_milli_per_sec: 1000,
                burst: 1,
                tokens_milli: 1000,
                last_refill_ms: t0,
            };
            let spent = RateBudget { tokens_milli: 0, ..fresh };
            let probed = RateBudget {
                tokens_milli: (t1 - t0) as u64,
                last_refill_ms: t1,
                ..fresh
            };
            &&& fresh.spec_admits(t0)
            &&& spent.tokens_milli == fresh.spec_refilled(t0) - 1000
            &&& !spent.spec_admits(t1)
            &&& probed.tokens_milli == spent.spec_refilled(t1)
            &&& probed.spec_admits(t2)
        }),
{
    let fresh = RateBudget {
        rate_milli_per_sec: 1000u64,
        burst: 1u64,
        tokens_milli: 1000u64,
        last_refill_ms: t0,
    };
    let spent = RateBudget { tokens_milli: 0u64, ..fresh };
    let probed = RateBudget {
        tokens_milli: (t1 - t0) as u64,
        last_refill_ms: t1,
        ..fresh
    };
    if t1 > t0 {
        assert((t1 - t0) * 1000 / 1000 == t1 - t0);
        assert(spent.spec_refilled(t1) == t1 - t0);
    }
    assert((t2 - t1) * 1000 / 1000 == t2 - t1);
    assert(probed.spec_refilled(t2) >= 1000);
}

/// Admission control over every connection source.  Buckets are created
/// on first sight of a source, all with the limiter's configured rate and
/// burst; keys are unique.
pub struct RateLimiter {
    /// Refill rate handed to new buckets, in milli-tokens per second.
    pub rate_milli_per_sec: u64,
    /// Burst capacity handed to new buckets, in whole tokens.
    pub burst: u64,
    /// One bucket per source, keyed by source identifier.
    pub buckets: Vec<(u64, RateBudget)>,
}

/// The index of `key` in the bucket table, if present.
pub open spec fn key_index(s: Seq<(u64, RateBudget)>, key: u64) -> Option<int> {
    if exists|i: int| 0 <= i < s.len() && s[i].0 == key {
        Some(choose|i: int| 0 <= i < s.len() && s[i].0 == key)
    } else {
        None::<int>
    }
}

impl RateLimiter {
    /// Structural soundness: bounded configuration, unique keys and
    /// well-formed buckets.
    pub open spec fn wf(&self) -> bool {
        &&& 1 <= self.burst <= MAX_BURST
        &&& self.rate_milli_per_sec <= MAX_RATE
        &&& forall|i: int, j: int|
            0 <= i < j < self.buckets@.len() ==> self.buckets@[i].0 != self.buckets@[j].0
        &&& forall|i: int| 0 <= i < self.buckets@.len() ==> (#[trigger] self.buckets@[i]).1.wf()
    }

    /// A limiter with no buckets yet.
    pub fn new(rate_milli_per_sec: u64, burst: u64) -> (r: RateLimiter)
        requires
            1 <= burst <= MAX_BURST,
            rate_milli_per_sec <= MAX_RATE,
        ensures
            r.wf(),
            r.rate_milli_per_sec == rate_milli_per_sec,
            r.burst == burst,
            r.buckets@.len() == 0,
    {
        RateLimiter { rate_milli_per_sec, burst, buckets: Vec::new() }
    }

    /// Admit a request from `source` at `now_ms`.
    ///
    /// A source seen before is admitted exactly when its bucket admits; a
    /// new source receives a full bucket (which, holding at least one
    /// token, admits its first request).
    pub fn try_admit(&mut self, source: u64, now_ms: u64) -> (r: bool)
        requires
            old(self).wf(),
        ensures
            final(self).wf(),
            final(self).rate_milli_per_sec == old(self).rate_milli_per_sec,
            final(self).burst == old(self).burst,
            match key_index(old(self).buckets@, source) {
                Some(i) => {
                    &&& r == old(self).buckets@[i].1.spec_admits(now_ms)
                    &&& final(self).buckets@.len() == old(self).buckets@.len()
                    &&& forall|j: int| 0 <= j < old(self).buckets@.len() && j != i ==>
                        final(self).buckets@[j] == old(self).buckets@[j]
                    &&& final(self).buckets@[i].0 == source
                    &&& ({
                        let before = old(self).buckets@[i].1;
                        let after = final(self).buckets@[i].1;
                        &&& after.rate_milli_per_sec == before.rate_milli_per_sec
                        &&& after.burst == before.burst
                        &&& after.tokens_milli == before.spec_refilled(now_ms)
                            - (if r { TOKEN_SCALE as int } else { 0 })
                        &&& after.last_refill_ms == if now_ms > before.last_refill_ms {
                            now_ms
                        } else {
                            before.last_refill_ms
                        }
                    })
                },
                None => {
                    &&& r == true
                    &&& final(self).buckets@.len() == old(self).buckets@.len() + 1
                    &&& forall|j: int| 0 <= j < old(self).buckets@.len() ==>
                        final(self).buckets@[j] == old(self).buckets@[j]
                    &&& final(self).buckets@.last() == (source, RateBudget {
                        rate_milli_per_sec: old(self).rate_milli_per_sec,
                        burst: old(self).burst,
                        tokens_milli: (old(self).burst * TOKEN_SCALE - TOKEN_SCALE) as u64,
                        last_refill_ms: now_ms,
                    })
                },
            },
    {
        let n = self.buckets.len();
        let mut idx: usize = 0;
        while idx < n
            invariant
                *self == *old(self),
                old(self).wf(),
                n == self.buckets@.len(),
                idx <= n,
                forall|i: int| 0 <= i < idx ==> self.buckets@[i].0 != source,
            decreases n - idx,
        {
            if self.buckets[idx].0 == source {
                proof {
                    let s = self.buckets@;
                    assert(s[idx as int].0 == source);
                    let i = choose|i: int| 0 <= i < s.len() && s[i].0 == source;
                    assert(s[i].0 == source);
                    assert(forall|a: int, b: int|
                        0 <= a < b < s.len() ==> s[a].0 != s[b].0);
                    assert(i == idx as int);
                }
                let mut bucket = self.buckets[idx].1;
                let ok = bucket.try_admit(now_ms);
                self.buckets.set(idx, (source, bucket));
                proof {
                    let s2 = self.buckets@;
                    assert(s2[idx as int].0 == source);
                    let i2 = choose|i: int| 0 <= i < s2.len() && s2[i].0 == source;
                    assert(i2 == idx as int);
                }
                return ok;
            }
            idx = idx + 1;
        }
        let mut bucket = RateBudget::new(self.rate_milli_per_sec, self.burst, now_ms);
        let ok = bucket.try_admit(now_ms);
        proof {
            assert(key_index(old(self).buckets@, source) is None);
        }
        self.buckets.push((source, bucket));
        proof {
            let s2 = self.buckets@;
            assert(s2[s2.len() - 1].0 == source);
            assert(forall|i: int| 0 <= i < s2.len() - 1 ==> s2[i] == old(self).buckets@[i]);
        }
        ok
    }
}

} // verus!
