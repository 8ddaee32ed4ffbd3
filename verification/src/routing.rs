//! Strategy-driven route selection.
//!
//! Each upstream endpoint carries a rolling window of latency samples, a
//! configured cost, the instant of its last success and its circuit
//! breaker.  A routing strategy picks among the endpoints whose breaker
//! admits traffic: `LatencyOptimized` by lowest trimmed-mean latency,
//! `CostAware` by lowest weighted cost under a cap, `Hybrid` by a convex
//! combination of both, falling back to another strategy when no candidate
//! survives circuit filtering.  All arithmetic is integral: weights are
//! per-mille, latencies milliseconds.

use vstd::prelude::*;
use crate::breaker::CircuitBreaker;

verus! {

/// Largest accepted latency sample in milliseconds; larger samples are
/// clamped when recorded.
pub const MAX_LATENCY_MS: u64 = 1000000000;
/// Largest accepted sample-window length.
pub const MAX_WINDOW: usize = 1024;
/// Largest accepted endpoint cost.
pub const MAX_COST: u64 = 1000000;
/// Largest accepted cost weight, in thousandths.
pub const MAX_WEIGHT: u64 = 1000000;
/// Weight used for endpoints that no cost weight names, in thousandths.
pub const NEUTRAL_WEIGHT: u64 = 1000;
/// Score given to an endpoint with no usable latency sample: worse than
/// every real trimmed mean.
pub const NO_DATA_SCORE: u64 = u64::MAX;

/// Routing state of one upstream endpoint.
pub struct EndpointState {
    /// Endpoint identifier.
    pub id: u64,
    /// Rolling latency window in milliseconds, most recent last.
    pub samples: Vec<u64>,
    /// Instant of the most recent successful outcome.
    pub last_success_ms: u64,
    /// Configured unit cost of routing to this endpoint.
    pub cost: u64,
    /// The endpoint's circuit breaker.
    pub breaker: CircuitBreaker,
}

impl EndpointState {
    /// Structural soundness: bounded window, samples and cost, and a
    /// well-formed breaker.
    pub open spec fn wf(&self) -> bool {
        &&& self.samples@.len() <= MAX_WINDOW
        &&& forall|i: int| 0 <= i < self.samples@.len() ==>
            (#[trigger] self.samples@[i]) <= MAX_LATENCY_MS
        &&& self.cost <= MAX_COST
        &&& self.breaker.wf()
    }

    /// A fresh endpoint with no samples and a closed breaker.
    pub fn new(id: u64, cost: u64, failure_threshold: u32, cool_down_ms: u64) -> (r: EndpointState)
        requires
            cost <= MAX_COST,
            failure_threshold >= 1,
        ensures
            r.wf(),
            r.id == id,
            r.cost == cost,
            r.samples@.len() == 0,
            r.last_success_ms == 0,
            r.breaker.wf(),
            r.breaker.failure_threshold == failure_threshold,
            r.breaker.cool_down_ms == cool_down_ms,
            r.breaker.state == crate::breaker::CircuitState::Closed,
            r.breaker.consecutive_failures == 0,
    {
        EndpointState {
            id,
            samples: Vec::new(),
            last_success_ms: 0,
            cost,
            breaker: CircuitBreaker::new(failure_threshold, cool_down_ms),
        }
    }
}

/// Sum of the samples within the outlier threshold.
pub open spec fn kept_sum(s: Seq<u64>, threshold: u64) -> int
    decreases s.len(),
{
    if s.len() == 0 {
        0
    } else {
        kept_sum(s.drop_last(), threshold) + if s.last() <= threshold { s.last() as int } else { 0 }
    }
}

/// Number of samples within the outlier threshold.
pub open spec fn kept_count(s: Seq<u64>, threshold: u64) -> int
    decreases s.len(),
{
    if s.len() == 0 {
        0
    } else {
        kept_count(s.drop_last(), threshold) + if s.last() <= threshold { 1int } else { 0 }
    }
}

/// The trimmed mean of a sample window: the mean of the samples within the
/// outlier threshold, or `NO_DATA_SCORE` when none is.
pub open spec fn spec_trimmed_mean(s: Seq<u64>, threshold: u64) -> int {
    if kept_count(s, threshold) == 0 {
        NO_DATA_SCORE as int
    } else {
        kept_sum(s, threshold) / kept_count(s, threshold)
    }
}

/// The kept sum and count never exceed what the bounds on window length
/// and sample size allow.
pub proof fn lemma_kept_bounds(s: Seq<u64>, threshold: u64)
    requires
        forall|i: int| 0 <= i < s.len() ==> (#[trigger] s[i]) <= MAX_LATENCY_MS,
    ensures
        0 <= kept_count(s, threshold) <= s.len(),
        0 <= kept_sum(s, threshold) <= kept_count(s, threshold) * MAX_LATENCY_MS,
        kept_count(s, threshold) > 0 ==>
            kept_sum(s, threshold) / kept_count(s, threshold) <= MAX_LATENCY_MS as int,
    decreases s.len(),
{
    if s.len() > 0 {
        assert(forall|i: int| 0 <= i < s.drop_last().len() ==>
            (#[trigger] s.drop_last()[i]) <= MAX_LATENCY_MS);
        lemma_kept_bounds(s.drop_last(), threshold);
        assert(s.last() <= MAX_LATENCY_MS);
        let c = kept_count(s.drop_last(), threshold);
        assert(c * MAX_LATENCY_MS + MAX_LATENCY_MS == (c + 1) * MAX_LATENCY_MS)
            by (nonlinear_arith);
    }
    if kept_count(s, threshold) > 0 {
        lemma_mean_bound(kept_sum(s, threshold), kept_count(s, threshold), MAX_LATENCY_MS as int);
    }
}

/// A sum of `n` values each at most `m`, divided by `n`, is at most `m`.
proof fn lemma_mean_bound(sum: int, n: int, m: int)
    requires
        n >= 1,
        m >= 0,
        0 <= sum <= n * m,
    ensures
        sum / n <= m,
{
    assert(sum / n <= m) by (nonlinear_arith)
        requires n >= 1, m >= 0, 0 <= sum <= n * m,
    ;
}

/// The trimmed mean of an endpoint's window, executably.
pub fn trimmed_mean_of(e: &EndpointState, threshold: u64) -> (r: u64)
    requires
        e.wf(),
    ensures
        r == spec_trimmed_mean(e.samples@, threshold),
{
    let n = e.samples.len();
    let mut sum: u64 = 0;
    let mut count: u64 = 0;
    let mut i: usize = 0;
    proof {
        assert(e.samples@.subrange(0, 0) =~= Seq::<u64>::empty());
    }
    while i < n
        invariant
            e.wf(),
            n == e.samples@.len(),
            i <= n,
            sum == kept_sum(e.samples@.subrange(0, i as int), threshold),
            count == kept_count(e.samples@.subrange(0, i as int), threshold),
            count <= i,
            sum <= i * MAX_LATENCY_MS,
        decreases n - i,
    {
        let s = e.samples[i];
        proof {
            let pre = e.samples@.subrange(0, i as int);
            let post = e.samples@.subrange(0, i + 1 as int);
            assert(post.drop_last() =~= pre);
            assert(post.last() == e.samples@[i as int]);
            assert((i as int) * MAX_LATENCY_MS + MAX_LATENCY_MS == (i + 1) * MAX_LATENCY_MS)
                by (nonlinear_arith);
        }
        if s <= threshold {
            sum = sum + s;
            count = count + 1;
        }
        i = i + 1;
    }
    proof {
        assert(e.samples@.subrange(0, n as int) =~= e.samples@);
    }
    if count == 0 {
        NO_DATA_SCORE
    } else {
        sum / count
    }
}

/// Append a latency sample (clamped to `MAX_LATENCY_MS`) to the rolling
/// window, dropping the oldest samples down to `window` entries.
pub fn record_latency(e: &mut EndpointState, sample_ms: u64, window: usize)
    requires
        old(e).wf(),
        1 <= window <= MAX_WINDOW,
    ensures
        final(e).wf(),
        final(e).id == old(e).id,
        final(e).cost == old(e).cost,
        final(e).breaker == old(e).breaker,
        final(e).last_success_ms == old(e).last_success_ms,
        ({
            let clamped: u64 = if sample_ms > MAX_LATENCY_MS { MAX_LATENCY_MS } else { sample_ms };
            let appended = old(e).samples@ + seq![clamped];
            let cut = if appended.len() > window { appended.len() - window } else { 0int };
            final(e).samples@ == appended.skip(cut)
        }),
        final(e).samples@.len() <= window,
{
    let clamped: u64 = if sample_ms > MAX_LATENCY_MS { MAX_LATENCY_MS } else { sample_ms };
    e.samples.push(clamped);
    let ghost appended = e.samples@;
    proof {
        assert(forall|i: int| 0 <= i < appended.len() ==>
            (#[trigger] appended[i]) <= MAX_LATENCY_MS);
        assert(e.samples@ =~= appended.skip(appended.len() - e.samples@.len()));
    }
    while e.samples.len() > window
        invariant
            e.id == old(e).id,
            e.cost == old(e).cost,
            e.breaker == old(e).breaker,
            e.last_success_ms == old(e).last_success_ms,
            old(e).wf(),
            window >= 1,
            forall|i: int| 0 <= i < appended.len() ==>
                (#[trigger] appended[i]) <= MAX_LATENCY_MS,
            appended.len() >= e.samples@.len(),
            appended.len() > window ==> e.samples@.len() >= window,
            appended.len() <= window ==> e.samples@ == appended,
            e.samples@ == appended.skip(appended.len() - e.samples@.len()),
        decreases e.samples@.len(),
    {
        let _dropped = e.samples.remove(0);
        proof {
            assert(e.samples@ =~= appended.skip(appended.len() - e.samples@.len()));
        }
    }
    proof {
        let clamped2: u64 = if sample_ms > MAX_LATENCY_MS { MAX_LATENCY_MS } else { sample_ms };
        let app2 = old(e).samples@ + seq![clamped2];
        assert(appended =~= app2);
        let cut = if app2.len() > window { app2.len() - window } else { 0int };
        assert(e.samples@ =~= app2.skip(cut));
        assert(forall|i: int| 0 <= i < e.samples@.len() ==>
            (#[trigger] e.samples@[i]) <= MAX_LATENCY_MS);
    }
}

/// Record the outcome of one relay through this endpoint: the latency
/// sample feeds the rolling window, a success stamps the recency used for
/// tie-breaking and closes the breaker, a failure feeds the breaker's
/// streak at `now_ms`.
pub fn record_outcome(
    e: &mut EndpointState,
    success: bool,
    latency_ms: u64,
    window: usize,
    now_ms: u64,
)
    requires
        old(e).wf(),
        1 <= window <= MAX_WINDOW,
    ensures
        final(e).wf(),
        final(e).id == old(e).id,
        final(e).cost == old(e).cost,
        success ==> {
            &&& final(e).last_success_ms == now_ms
            &&& final(e).breaker.state == crate::breaker::CircuitState::Closed
            &&& final(e).breaker.consecutive_failures == 0
        },
        !success ==> {
            &&& final(e).last_success_ms == old(e).last_success_ms
            &&& final(e).breaker == old(e).breaker.spec_record_failure(now_ms)
        },
        final(e).breaker.failure_threshold == old(e).breaker.failure_threshold,
        final(e).breaker.cool_down_ms == old(e).breaker.cool_down_ms,
        ({
            let clamped: u64 = if latency_ms > MAX_LATENCY_MS { MAX_LATENCY_MS } else { latency_ms };
            let appended = old(e).samples@ + seq![clamped];
            let cut = if appended.len() > window { appended.len() - window } else { 0int };
            final(e).samples@ == appended.skip(cut)
        }),
{
    record_latency(e, latency_ms, window);
    if success {
        e.last_success_ms = now_ms;
        let mut b = e.breaker;
        b.record_success();
        e.breaker = b;
    } else {
        let mut b = e.breaker;
        b.record_failure(now_ms);
        e.breaker = b;
    }
}

/// Cost weight of one endpoint, in thousandths.
#[derive(Clone, Copy, PartialEq, Eq, Structural, Debug)]
pub struct CostWeight {
    /// The endpoint the weight applies to.
    pub endpoint: u64,
    /// Multiplier applied to the endpoint's cost, in thousandths.
    pub weight_milli: u64,
}

/// The adaptive routing strategy, immutable per controller instance.
pub enum RoutingStrategy {
    /// Pick the endpoint with the lowest trimmed-mean latency.
    LatencyOptimized {
        /// Size of the rolling sample window.
        historical_samples: usize,
        /// Samples above this are excluded from the mean, in milliseconds.
        outlier_threshold_ms: u64,
    },
    /// Pick the cheapest endpoint whose weighted cost is within the cap.
    CostAware {
        /// Per-endpoint cost multipliers, in thousandths.
        cost_weights: Vec<CostWeight>,
        /// Candidates above this weighted cost are rejected.
        max_cost: u64,
    },
    /// Convex combination of normalized latency and cost; recurses into
    /// the fallback when no candidate survives circuit filtering.
    Hybrid {
        /// Weight of the normalized latency, in thousandths.
        latency_weight: u64,
        /// Weight of the normalized cost, in thousandths.
        cost_weight: u64,
        /// Strategy used when no candidate survives circuit filtering.
        fallback: Box<RoutingStrategy>,
    },
}

/// Unique endpoints and bounded weights.
pub open spec fn weights_wf(ws: Seq<CostWeight>) -> bool {
    &&& forall|i: int, j: int| 0 <= i < j < ws.len() ==> ws[i].endpoint != ws[j].endpoint
    &&& forall|i: int| 0 <= i < ws.len() ==> (#[trigger] ws[i]).weight_milli <= MAX_WEIGHT
}

impl RoutingStrategy {
    /// Structural soundness of the strategy parameters, through every
    /// fallback level.
    pub open spec fn wf(&self) -> bool
        decreases self,
    {
        match self {
            RoutingStrategy::LatencyOptimized { historical_samples, outlier_threshold_ms } =>
                1 <= *historical_samples <= MAX_WINDOW,
            RoutingStrategy::CostAware { cost_weights, max_cost } => weights_wf(cost_weights@),
            RoutingStrategy::Hybrid { latency_weight, cost_weight, fallback } => {
                &&& *latency_weight <= NEUTRAL_WEIGHT
                &&& *cost_weight <= NEUTRAL_WEIGHT
                &&& fallback.wf()
            }
        }
    }
}

/// Every endpoint in the table is well formed.
pub open spec fn endpoints_wf(eps: Seq<EndpointState>) -> bool {
    forall|i: int| 0 <= i < eps.len() ==> (#[trigger] eps[i]).wf()
}

/// The endpoint at `i` is admitted by its breaker at `now_ms`.
pub open spec fn admissible_at(eps: Seq<EndpointState>, i: int, now_ms: u64) -> bool {
    eps[i].breaker.spec_admissible(now_ms)
}

/// Some endpoint survives circuit filtering.
pub open spec fn exists_admissible(eps: Seq<EndpointState>, now_ms: u64) -> bool {
    exists|i: int| 0 <= i < eps.len() && admissible_at(eps, i, now_ms)
}

/// Whether some endpoint survives circuit filtering, executably.
pub fn has_admissible(endpoints: &Vec<EndpointState>, now_ms: u64) -> (r: bool)
    ensures
        r == exists_admissible(endpoints@, now_ms),
{
    let n = endpoints.len();
    let mut i: usize = 0;
    while i < n
        invariant
            n == endpoints@.len(),
            i <= n,
            forall|j: int| 0 <= j < i ==> !admissible_at(endpoints@, j, now_ms),
        decreases n - i,
    {
        if endpoints[i].breaker.is_admissible(now_ms) {
            proof {
                assert(admissible_at(endpoints@, i as int, now_ms));
            }
            return true;
        }
        i = i + 1;
    }
    false
}

/// The configured weight of `id`, or the neutral weight when no cost
/// weight names it.
pub open spec fn weight_of(ws: Seq<CostWeight>, id: u64) -> int {
    if exists|k: int| 0 <= k < ws.len() && ws[k].endpoint == id {
        (ws[choose|k: int| 0 <= k < ws.len() && ws[k].endpoint == id].weight_milli) as int
    } else {
        NEUTRAL_WEIGHT as int
    }
}

/// The weighted cost of routing to `e`: its configured cost scaled by its
/// weight in thousandths.
pub open spec fn spec_weighted_cost(ws: Seq<CostWeight>, e: EndpointState) -> int {
    weight_of(ws, e.id) * e.cost / (NEUTRAL_WEIGHT as int)
}

/// Look up the weight of `id` in the cost-weight table.
pub fn weight_lookup(ws: &Vec<CostWeight>, id: u64) -> (r: u64)
    requires
        weights_wf(ws@),
    ensures
        r == weight_of(ws@, id),
        r <= MAX_WEIGHT,
{
    let n = ws.len();
    let mut i: usize = 0;
    while i < n
        invariant
            weights_wf(ws@),
            n == ws@.len(),
            i <= n,
            forall|j: int| 0 <= j < i ==> ws@[j].endpoint != id,
        decreases n - i,
    {
        if ws[i].endpoint == id {
            proof {
                let k = choose|k: int| 0 <= k < ws@.len() && ws@[k].endpoint == id;
                assert(ws@[k].endpoint == id);
                assert(k == i as int);
            }
            return ws[i].weight_milli;
        }
        i = i + 1;
    }
    NEUTRAL_WEIGHT
}

/// The weighted cost of `e`, executably.
pub fn weighted_cost_of(ws: &Vec<CostWeight>, e: &EndpointState) -> (r: u64)
    requires
        weights_wf(ws@),
        e.wf(),
    ensures
        r == spec_weighted_cost(ws@, *e),
        r <= MAX_WEIGHT * MAX_COST / (NEUTRAL_WEIGHT as int),
{
    let w = weight_lookup(ws, e.id);
    proof {
        assert((w as int) * (e.cost as int) <= (MAX_WEIGHT as int) * (MAX_COST as int))
            by (nonlinear_arith)
            requires
                0 <= w as int <= MAX_WEIGHT as int,
                0 <= e.cost as int <= MAX_COST as int,
        ;
        assert((w as int) * (e.cost as int) / (NEUTRAL_WEIGHT as int)
            <= (MAX_WEIGHT as int) * (MAX_COST as int) / (NEUTRAL_WEIGHT as int))
            by (nonlinear_arith)
            requires 0 <= (w as int) * (e.cost as int) <= (MAX_WEIGHT as int) * (MAX_COST as int),
        ;
    }
    (w * e.cost) / NEUTRAL_WEIGHT
}

/// Select the admissible endpoint with the lowest trimmed-mean latency,
/// ties broken in favour of the most recently successful endpoint.
pub fn select_latency(
    endpoints: &Vec<EndpointState>,
    outlier_threshold_ms: u64,
    now_ms: u64,
) -> (r: Option<usize>)
    requires
        endpoints_wf(endpoints@),
    ensures
        r matches Some(i) ==> {
            &&& 0 <= i < endpoints@.len()
            &&& admissible_at(endpoints@, i as int, now_ms)
            &&& forall|j: int| 0 <= j < endpoints@.len()
                && admissible_at(endpoints@, j, now_ms) ==> {
                    let mi = spec_trimmed_mean(endpoints@[i as int].samples@, outlier_threshold_ms);
                    let mj = spec_trimmed_mean(endpoints@[j].samples@, outlier_threshold_ms);
                    mi <= mj && (mi == mj ==>
                        endpoints@[i as int].last_success_ms >= endpoints@[j].last_success_ms)
                }
        },
        r is None <==> !exists_admissible(endpoints@, now_ms),
{
    let n = endpoints.len();
    let mut best: Option<usize> = None;
    let mut best_score: u64 = 0;
    let mut best_last: u64 = 0;
    let mut i: usize = 0;
    while i < n
        invariant
            endpoints_wf(endpoints@),
            n == endpoints@.len(),
            i <= n,
            best is None ==> forall|j: int| 0 <= j < i ==> !admissible_at(endpoints@, j, now_ms),
            best matches Some(b) ==> {
                &&& 0 <= b < i
                &&& admissible_at(endpoints@, b as int, now_ms)
                &&& best_score == spec_trimmed_mean(
                    endpoints@[b as int].samples@, outlier_threshold_ms)
                &&& best_last == endpoints@[b as int].last_success_ms
                &&& forall|j: int| 0 <= j < i && admissible_at(endpoints@, j, now_ms) ==> {
                    let mj = spec_trimmed_mean(endpoints@[j].samples@, outlier_threshold_ms);
                    best_score <= mj && (best_score == mj ==>
                        best_last >= endpoints@[j].last_success_ms)
                }
            },
        decreases n - i,
    {
        if endpoints[i].breaker.is_admissible(now_ms) {
            let score = trimmed_mean_of(&endpoints[i], outlier_threshold_ms);
            let last = endpoints[i].last_success_ms;
            let better = match best {
                None => true,
                Some(_) => score < best_score || (score == best_score && last > best_last),
            };
            if better {
                best = Some(i);
                best_score = score;
                best_last = last;
            }
        }
        i = i + 1;
    }
    best
}

/// Select the admissible endpoint with the lowest weighted cost among
/// those whose weighted cost does not exceed `max_cost`.
pub fn select_cost(
    endpoints: &Vec<EndpointState>,
    cost_weights: &Vec<CostWeight>,
    max_cost: u64,
    now_ms: u64,
) -> (r: Option<usize>)
    requires
        endpoints_wf(endpoints@),
        weights_wf(cost_weights@),
    ensures
        r matches Some(i) ==> {
            &&& 0 <= i < endpoints@.len()
            &&& admissible_at(endpoints@, i as int, now_ms)
            &&& spec_weighted_cost(cost_weights@, endpoints@[i as int]) <= max_cost
            &&& forall|j: int| 0 <= j < endpoints@.len()
                && admissible_at(endpoints@, j, now_ms)
                && spec_weighted_cost(cost_weights@, endpoints@[j]) <= max_cost ==>
                    spec_weighted_cost(cost_weights@, endpoints@[i as int])
                        <= spec_weighted_cost(cost_weights@, endpoints@[j])
        },
        r is None <==> !exists|j: int| 0 <= j < endpoints@.len()
            && admissible_at(endpoints@, j, now_ms)
            && spec_weighted_cost(cost_weights@, endpoints@[j]) <= max_cost,
{
    let n = endpoints.len();
    let mut best: Option<usize> = None;
    let mut best_cost: u64 = 0;
    let mut i: usize = 0;
    while i < n
        invariant
            endpoints_wf(endpoints@),
            weights_wf(cost_weights@),
            n == endpoints@.len(),
            i <= n,
            best is None ==> forall|j: int| 0 <= j < i ==>
                !(admissible_at(endpoints@, j, now_ms)
                    && spec_weighted_cost(cost_weights@, endpoints@[j]) <= max_cost),
            best matches Some(b) ==> {
                &&& 0 <= b < i
                &&& admissible_at(endpoints@, b as int, now_ms)
                &&& best_cost == spec_weighted_cost(cost_weights@, endpoints@[b as int])
                &&& best_cost <= max_cost
                &&& forall|j: int| 0 <= j < i && admissible_at(endpoints@, j, now_ms)
                    && spec_weighted_cost(cost_weights@, endpoints@[j]) <= max_cost ==>
                        best_cost <= spec_weighted_cost(cost_weights@, endpoints@[j])
            },
        decreases n - i,
    {
        if endpoints[i].breaker.is_admissible(now_ms) {
            let cost = weighted_cost_of(cost_weights, &endpoints[i]);
            if cost <= max_cost {
                let better = match best {
                    None => true,
                    Some(_) => cost < best_cost,
                };
                if better {
                    best = Some(i);
                    best_cost = cost;
                }
            }
        }
        i = i + 1;
    }
    best
}

/// Largest plain-mean latency among the admissible endpoints (0 when none
/// is admissible); endpoints without samples count as `NO_DATA_SCORE`.
pub open spec fn max_adm_mean(eps: Seq<EndpointState>, now_ms: u64) -> int
    decreases eps.len(),
{
    if eps.len() == 0 {
        0
    } else {
        let rest = max_adm_mean(eps.drop_last(), now_ms);
        let v = if eps.last().breaker.spec_admissible(now_ms) {
            spec_trimmed_mean(eps.last().samples@, MAX_LATENCY_MS)
        } else {
            0
        };
        if v > rest { v } else { rest }
    }
}

/// Largest cost among the admissible endpoints (0 when none is admissible).
pub open spec fn max_adm_cost(eps: Seq<EndpointState>, now_ms: u64) -> int
    decreases eps.len(),
{
    if eps.len() == 0 {
        0
    } else {
        let rest = max_adm_cost(eps.drop_last(), now_ms);
        let v = if eps.last().breaker.spec_admissible(now_ms) {
            eps.last().cost as int
        } else {
            0
        };
        if v > rest { v } else { rest }
    }
}

/// The admissible maxima dominate every admissible endpoint and never
/// exceed the bounds of their ingredients.
pub proof fn lemma_max_adm_dominates(eps: Seq<EndpointState>, now_ms: u64)
    requires
        endpoints_wf(eps),
    ensures
        0 <= max_adm_mean(eps, now_ms) <= NO_DATA_SCORE,
        0 <= max_adm_cost(eps, now_ms) <= MAX_COST,
        forall|j: int| 0 <= j < eps.len() && admissible_at(eps, j, now_ms) ==>
            spec_trimmed_mean(eps[j].samples@, MAX_LATENCY_MS) <= max_adm_mean(eps, now_ms),
        forall|j: int| 0 <= j < eps.len() && admissible_at(eps, j, now_ms) ==>
            eps[j].cost <= max_adm_cost(eps, now_ms),
    decreases eps.len(),
{
    if eps.len() > 0 {
        assert(forall|i: int| 0 <= i < eps.drop_last().len() ==>
            (#[trigger] eps.drop_last()[i]) == eps[i]);
        lemma_max_adm_dominates(eps.drop_last(), now_ms);
        lemma_kept_bounds(eps.last().samples@, MAX_LATENCY_MS);
        assert(forall|j: int| 0 <= j < eps.len() - 1 && admissible_at(eps, j, now_ms) ==>
            admissible_at(eps.drop_last(), j, now_ms) && eps.drop_last()[j] == eps[j]);
    }
}

/// A value normalized against a maximum, in thousandths: at most 1000 when
/// the value is within the maximum, and 0 under a zero maximum.
pub open spec fn spec_norm(v: int, m: int) -> int {
    if m <= 0 {
        0
    } else {
        v * 1000 / m
    }
}

/// The hybrid score of an endpoint: the convex combination of its latency
/// and cost, each normalized against the admissible maxima, weighted in
/// thousandths.
pub open spec fn spec_hybrid_score(
    e: EndpointState,
    latency_weight: u64,
    cost_weight: u64,
    ml: int,
    mc: int,
) -> int {
    latency_weight * spec_norm(spec_trimmed_mean(e.samples@, MAX_LATENCY_MS), ml)
        + cost_weight * spec_norm(e.cost as int, mc)
}

/// Normalize `v` against `m`, executably.
fn norm_of(v: u64, m: u64) -> (r: u64)
    requires
        m == 0 || v <= m,
    ensures
        r == spec_norm(v as int, m as int),
        r <= 1000,
{
    if m == 0 {
        0
    } else {
        proof {
            assert((v as int) * 1000 / (m as int) <= 1000) by (nonlinear_arith)
                requires 0 <= v as int <= m as int, m as int >= 1,
            ;
        }
        (((v as u128) * 1000) / (m as u128)) as u64
    }
}

/// The maxima used for hybrid normalization: the largest mean latency and
/// the largest cost among admissible endpoints.
fn hybrid_maxes(endpoints: &Vec<EndpointState>, now_ms: u64) -> (r: (u64, u64))
    requires
        endpoints_wf(endpoints@),
    ensures
        r.0 == max_adm_mean(endpoints@, now_ms),
        r.1 == max_adm_cost(endpoints@, now_ms),
{
    let n = endpoints.len();
    let mut ml: u64 = 0;
    let mut mc: u64 = 0;
    let mut i: usize = 0;
    proof {
        assert(endpoints@.subrange(0, 0) =~= Seq::<EndpointState>::empty());
    }
    while i < n
        invariant
            endpoints_wf(endpoints@),
            n == endpoints@.len(),
            i <= n,
            ml == max_adm_mean(endpoints@.subrange(0, i as int), now_ms),
            mc == max_adm_cost(endpoints@.subrange(0, i as int), now_ms),
        decreases n - i,
    {
        proof {
            let pre = endpoints@.subrange(0, i as int);
            let post = endpoints@.subrange(0, i + 1 as int);
            assert(post.drop_last() =~= pre);
            assert(post.last() == endpoints@[i as int]);
        }
        if endpoints[i].breaker.is_admissible(now_ms) {
            let v = trimmed_mean_of(&endpoints[i], MAX_LATENCY_MS);
            if v > ml {
                ml = v;
            }
            if endpoints[i].cost > mc {
                mc = endpoints[i].cost;
            }
        }
        i = i + 1;
    }
    proof {
        assert(endpoints@.subrange(0, n as int) =~= endpoints@);
    }
    (ml, mc)
}

/// The hybrid score of one endpoint, executably.
fn hybrid_score_of(
    e: &EndpointState,
    latency_weight: u64,
    cost_weight: u64,
    ml: u64,
    mc: u64,
) -> (r: u64)
    requires
        e.wf(),
        latency_weight <= NEUTRAL_WEIGHT,
        cost_weight <= NEUTRAL_WEIGHT,
        ml == 0 || spec_trimmed_mean(e.samples@, MAX_LATENCY_MS) <= ml,
        mc == 0 || e.cost <= mc,
    ensures
        r == spec_hybrid_score(*e, latency_weight, cost_weight, ml as int, mc as int),
{
    let mean = trimmed_mean_of(e, MAX_LATENCY_MS);
    let nl = norm_of(mean, ml);
    let nc = norm_of(e.cost, mc);
    proof {
        assert(latency_weight * nl <= 1000 * 1000) by (nonlinear_arith)
            requires 0 <= latency_weight as int <= 1000, 0 <= nl as int <= 1000,
        ;
        assert(cost_weight * nc <= 1000 * 1000) by (nonlinear_arith)
            requires 0 <= cost_weight as int <= 1000, 0 <= nc as int <= 1000,
        ;
    }
    latency_weight * nl + cost_weight * nc
}

/// Select the admissible endpoint with the lowest hybrid score.
pub fn select_hybrid(
    endpoints: &Vec<EndpointState>,
    latency_weight: u64,
    cost_weight: u64,
    now_ms: u64,
) -> (r: Option<usize>)
    requires
        endpoints_wf(endpoints@),
        latency_weight <= NEUTRAL_WEIGHT,
        cost_weight <= NEUTRAL_WEIGHT,
    ensures
        r matches Some(i) ==> {
            &&& 0 <= i < endpoints@.len()
            &&& admissible_at(endpoints@, i as int, now_ms)
            &&& forall|j: int| 0 <= j < endpoints@.len()
                && admissible_at(endpoints@, j, now_ms) ==>
                    spec_hybrid_score(endpoints@[i as int], latency_weight, cost_weight,
                        max_adm_mean(endpoints@, now_ms), max_adm_cost(endpoints@, now_ms))
                    <= spec_hybrid_score(endpoints@[j], latency_weight, cost_weight,
                        max_adm_mean(endpoints@, now_ms), max_adm_cost(endpoints@, now_ms))
        },
        r is None <==> !exists_admissible(endpoints@, now_ms),
{
    let (ml, mc) = hybrid_maxes(endpoints, now_ms);
    proof {
        lemma_max_adm_dominates(endpoints@, now_ms);
    }
    let n = endpoints.len();
    let mut best: Option<usize> = None;
    let mut best_score: u64 = 0;
    let mut i: usize = 0;
    while i < n
        invariant
            endpoints_wf(endpoints@),
            latency_weight <= NEUTRAL_WEIGHT,
            cost_weight <= NEUTRAL_WEIGHT,
            ml == max_adm_mean(endpoints@, now_ms),
            mc == max_adm_cost(endpoints@, now_ms),
            forall|j: int| 0 <= j < endpoints@.len() && admissible_at(endpoints@, j, now_ms) ==>
                spec_trimmed_mean(endpoints@[j].samples@, MAX_LATENCY_MS) <= ml,
            forall|j: int| 0 <= j < endpoints@.len() && admissible_at(endpoints@, j, now_ms) ==>
                endpoints@[j].cost <= mc,
            n == endpoints@.len(),
            i <= n,
            best is None ==> forall|j: int| 0 <= j < i ==> !admissible_at(endpoints@, j, now_ms),
            best matches Some(b) ==> {
                &&& 0 <= b < i
                &&& admissible_at(endpoints@, b as int, now_ms)
                &&& best_score == spec_hybrid_score(endpoints@[b as int], latency_weight,
                    cost_weight, ml as int, mc as int)
                &&& forall|j: int| 0 <= j < i && admissible_at(endpoints@, j, now_ms) ==>
                    best_score <= spec_hybrid_score(endpoints@[j], latency_weight, cost_weight,
                        ml as int, mc as int)
            },
        decreases n - i,
    {
        if endpoints[i].breaker.is_admissible(now_ms) {
            proof {
                assert(admissible_at(endpoints@, i as int, now_ms));
            }
            let score = hybrid_score_of(
                &endpoints[i], latency_weight, cost_weight, ml, mc);
            let better = match best {
                None => true,
                Some(_) => score < best_score,
            };
            if better {
                best = Some(i);
                best_score = score;
            }
        }
        i = i + 1;
    }
    best
}

/// `Option<usize>` as a mathematical index.
pub open spec fn opt_as_int(r: Option<usize>) -> Option<int> {
    match r {
        Some(i) => Some(i as int),
        None => None,
    }
}

/// What a correct route selection returns for each strategy: the
/// lowest-trimmed-mean admissible endpoint (ties to the most recently
/// successful), the cheapest admissible endpoint within the cost cap, or
/// the lowest hybrid score — recursing into the fallback when no candidate
/// survives circuit filtering.
pub open spec fn select_ok(
    s: RoutingStrategy,
    eps: Seq<EndpointState>,
    now_ms: u64,
    r: Option<int>,
) -> bool
    decreases s,
{
    match s {
        RoutingStrategy::LatencyOptimized { historical_samples, outlier_threshold_ms } => match r {
            Some(i) => {
                &&& 0 <= i < eps.len()
                &&& admissible_at(eps, i, now_ms)
                &&& forall|j: int| 0 <= j < eps.len() && admissible_at(eps, j, now_ms) ==> {
                    let mi = spec_trimmed_mean(eps[i].samples@, outlier_threshold_ms);
                    let mj = spec_trimmed_mean(eps[j].samples@, outlier_threshold_ms);
                    mi <= mj && (mi == mj ==> eps[i].last_success_ms >= eps[j].last_success_ms)
                }
            },
            None => !exists_admissible(eps, now_ms),
        },
        RoutingStrategy::CostAware { cost_weights, max_cost } => match r {
            Some(i) => {
                &&& 0 <= i < eps.len()
                &&& admissible_at(eps, i, now_ms)
                &&& spec_weighted_cost(cost_weights@, eps[i]) <= max_cost
                &&& forall|j: int| 0 <= j < eps.len() && admissible_at(eps, j, now_ms)
                    && spec_weighted_cost(cost_weights@, eps[j]) <= max_cost ==>
                        spec_weighted_cost(cost_weights@, eps[i])
                            <= spec_weighted_cost(cost_weights@, eps[j])
            },
            None => !exists|j: int| 0 <= j < eps.len() && admissible_at(eps, j, now_ms)
                && spec_weighted_cost(cost_weights@, eps[j]) <= max_cost,
        },
        RoutingStrategy::Hybrid { latency_weight, cost_weight, fallback } => {
            if exists_admissible(eps, now_ms) {
                match r {
                    Some(i) => {
                        &&& 0 <= i < eps.len()
                        &&& admissible_at(eps, i, now_ms)
                        &&& forall|j: int| 0 <= j < eps.len()
                            && admissible_at(eps, j, now_ms) ==>
                                spec_hybrid_score(eps[i], latency_weight, cost_weight,
                                    max_adm_mean(eps, now_ms), max_adm_cost(eps, now_ms))
                                <= spec_hybrid_score(eps[j], latency_weight, cost_weight,
                                    max_adm_mean(eps, now_ms), max_adm_cost(eps, now_ms))
                    },
                    None => false,
                }
            } else {
                select_ok(*fallback, eps, now_ms, r)
            }
        },
    }
}

/// A selection that returns an index always returns one within the
/// endpoint table, whatever the strategy and however deep its fallbacks.
pub proof fn lemma_select_ok_bounds(
    s: RoutingStrategy,
    eps: Seq<EndpointState>,
    now_ms: u64,
    i: int,
)
    requires
        select_ok(s, eps, now_ms, Some(i)),
    ensures
        0 <= i < eps.len(),
        admissible_at(eps, i, now_ms),
    decreases s,
{
    match s {
        RoutingStrategy::LatencyOptimized { .. } => {}
        RoutingStrategy::CostAware { .. } => {}
        RoutingStrategy::Hybrid { latency_weight, cost_weight, fallback } => {
            if !exists_admissible(eps, now_ms) {
                lemma_select_ok_bounds(*fallback, eps, now_ms, i);
            }
        }
    }
}

/// Select a route by the active strategy.  The returned index is the
/// winning endpoint; `None` means no eligible candidate and the connection
/// is rejected as `ResourceExhausted`.
pub fn select_route(
    strategy: &RoutingStrategy,
    endpoints: &Vec<EndpointState>,
    now_ms: u64,
) -> (r: Option<usize>)
    requires
        strategy.wf(),
        endpoints_wf(endpoints@),
    ensures
        select_ok(*strategy, endpoints@, now_ms, opt_as_int(r)),
    decreases *strategy,
{
    match strategy {
        RoutingStrategy::LatencyOptimized { historical_samples: _, outlier_threshold_ms } => {
            select_latency(endpoints, *outlier_threshold_ms, now_ms)
        }
        RoutingStrategy::CostAware { cost_weights, max_cost } => {
            select_cost(endpoints, cost_weights, *max_cost, now_ms)
        }
        RoutingStrategy::Hybrid { latency_weight, cost_weight, fallback } => {
            if has_admissible(endpoints, now_ms) {
                select_hybrid(endpoints, *latency_weight, *cost_weight, now_ms)
            } else {
                select_route(fallback, endpoints, now_ms)
            }
        }
    }
}

} // verus!

