//! The routing controller: per-connection pipeline decisions and the
//! shared routing state.
//!
//! The controller owns the strategy, the endpoint table (with its circuit
//! breakers), the connection pool, the rate limiter and the telemetry
//! counters.  The I/O itself — accepting sockets, running the handshake
//! over a transport, relaying bytes — lives with the caller; the caller
//! feeds each connection's events into the [`Stage`] machine, whose
//! transitions enforce the pipeline order: admission strictly precedes the
//! handshake, which precedes protocol detection, routing and the relay.

use vstd::prelude::*;
use crate::ErrorKind;
use crate::limiter::{RateLimiter, MAX_BURST, MAX_RATE};
use crate::pool::ConnectionPool;
use crate::routing::{
    select_route, select_ok, record_outcome, EndpointState, RoutingStrategy,
    endpoints_wf, MAX_COST, MAX_WINDOW,
};

verus! {

/// Application protocol detected from the first bytes of a connection.
#[derive(Clone, Copy, PartialEq, Eq, Structural, Debug)]
pub enum ProtocolType {
    /// A TLS record layer.
    Tls,
    /// Plain HTTP.
    Http,
    /// Anything else.
    Unknown,
}

impl ProtocolType {
    /// Stable label for the telemetry tags.
    pub fn name(&self) -> (r: &'static str)
        ensures
            r@ == match self {
                ProtocolType::Tls => "tls"@,
                ProtocolType::Http => "http"@,
                ProtocolType::Unknown => "unknown"@,
            },
    {
        match self {
            ProtocolType::Tls => "tls",
            ProtocolType::Http => "http",
            ProtocolType::Unknown => "unknown",
        }
    }
}

/// What the first bytes of a connection say about its protocol: a TLS
/// handshake record starts with content type 22; an HTTP request starts
/// with one of the method names.
pub open spec fn spec_detect(b: Seq<u8>) -> ProtocolType {
    if b.len() >= 1 && b[0] == 22u8 {
        ProtocolType::Tls
    } else if b.len() >= 4 && (
        (b[0] == 71u8 && b[1] == 69u8 && b[2] == 84u8 && b[3] == 32u8)  // "GET "
        || (b[0] == 80u8 && b[1] == 79u8 && b[2] == 83u8 && b[3] == 84u8)  // "POST"
        || (b[0] == 80u8 && b[1] == 85u8 && b[2] == 84u8 && b[3] == 32u8)  // "PUT "
        || (b[0] == 72u8 && b[1] == 69u8 && b[2] == 65u8 && b[3] == 68u8)  // "HEAD"
    ) {
        ProtocolType::Http
    } else {
        ProtocolType::Unknown
    }
}

/// Detect the protocol from the peeked first bytes.  A pure function of
/// the prefix, with no side effects.
pub fn detect_protocol(prefix: &Vec<u8>) -> (r: ProtocolType)
    ensures
        r == spec_detect(prefix@),
{
    if prefix.len() >= 1 && prefix[0] == 22u8 {
        return ProtocolType::Tls;
    }
    if prefix.len() >= 4 {
        let b0 = prefix[0];
        let b1 = prefix[1];
        let b2 = prefix[2];
        let b3 = prefix[3];
        if (b0 == 71 && b1 == 69 && b2 == 84 && b3 == 32)
            || (b0 == 80 && b1 == 79 && b2 == 83 && b3 == 84)
            || (b0 == 80 && b1 == 85 && b2 == 84 && b3 == 32)
            || (b0 == 72 && b1 == 69 && b2 == 65 && b3 == 68)
        {
            return ProtocolType::Http;
        }
    }
    ProtocolType::Unknown
}

/// Per-connection metadata, created at accept time and read-only
/// thereafter.
#[derive(Debug)]
pub struct ConnectionContext {
    /// Identifier of the connection source (the rate-limiter key).
    pub source: u64,
    /// Detected application protocol.
    pub protocol: ProtocolType,
    /// Negotiated handshake version label, when one applies.
    pub tls_version: Option<String>,
    /// Scheduling priority.
    pub priority: u8,
    /// Free-form routing tags.
    pub qos_tags: Vec<(String, String)>,
}

impl ConnectionContext {
    /// Context for a connection just accepted from `source`: protocol not
    /// yet detected, default priority, no tags.
    pub fn new(source: u64) -> (r: ConnectionContext)
        ensures
            r.source == source,
            r.protocol == ProtocolType::Unknown,
            r.tls_version is None,
            r.priority == 0,
            r.qos_tags@.len() == 0,
    {
        ConnectionContext {
            source,
            protocol: ProtocolType::Unknown,
            tls_version: None,
            priority: 0,
            qos_tags: Vec::new(),
        }
    }
}

/// A resolved routing decision: the endpoint to relay to and its transport
/// parameters.
#[derive(Clone, Copy, PartialEq, Eq, Structural, Debug)]
pub struct Route {
    /// The chosen upstream endpoint.
    pub endpoint: u64,
    /// Deadline for dialing it, in milliseconds.
    pub connect_timeout_ms: u64,
}

/// The stages a connection passes through, in order.  No stage begins
/// before its predecessor succeeded; a failure is terminal.
#[derive(Clone, Copy, PartialEq, Eq, Structural, Debug)]
pub enum Stage {
    /// Accepted, not yet admitted.
    Start,
    /// Past rate-limiter admission.
    Admitted,
    /// Past the handshake.
    Established,
    /// Past protocol detection.
    Detected,
    /// A route was chosen.
    Routed,
    /// The relay finished and the outcome was recorded.
    Done,
    /// Terminally failed with the recorded kind.
    Failed(ErrorKind),
}

/// One connection's lifecycle events, as the I/O layer reports them.
#[derive(Clone, Copy, PartialEq, Eq, Structural, Debug)]
pub enum ConnEvent {
    /// The rate limiter's verdict.
    Admission(bool),
    /// The handshake finished, or failed with the given kind.
    Handshake(Option<ErrorKind>),
    /// The protocol was detected.
    Detection,
    /// Route selection's verdict.
    Selection(bool),
    /// The relay finished; `true` means both directions completed.
    Relay(bool),
}

/// How far along the pipeline a stage is.
pub open spec fn stage_rank(s: Stage) -> int {
    match s {
        Stage::Start => 0,
        Stage::Admitted => 1,
        Stage::Established => 2,
        Stage::Detected => 3,
        Stage::Routed => 4,
        Stage::Done => 5,
        Stage::Failed(_) => 6,
    }
}

/// The pipeline transition relation: each event advances the connection
/// to the next stage exactly when it arrives in the right stage and
/// reports success; everything else fails the connection terminally.
pub open spec fn spec_advance(s: Stage, e: ConnEvent) -> Stage {
    match (s, e) {
        (Stage::Start, ConnEvent::Admission(true)) => Stage::Admitted,
        (Stage::Start, ConnEvent::Admission(false)) => Stage::Failed(ErrorKind::RateExceeded),
        (Stage::Admitted, ConnEvent::Handshake(None)) => Stage::Established,
        (Stage::Admitted, ConnEvent::Handshake(Some(k))) => Stage::Failed(k),
        (Stage::Established, ConnEvent::Detection) => Stage::Detected,
        (Stage::Detected, ConnEvent::Selection(true)) => Stage::Routed,
        (Stage::Detected, ConnEvent::Selection(false)) =>
            Stage::Failed(ErrorKind::ResourceExhausted),
        (Stage::Routed, ConnEvent::Relay(true)) => Stage::Done,
        (Stage::Routed, ConnEvent::Relay(false)) => Stage::Failed(ErrorKind::IoError),
        (_, _) => Stage::Failed(ErrorKind::ProtocolViolation),
    }
}

/// Advance one connection's stage by one reported event.
pub fn advance_stage(s: Stage, e: ConnEvent) -> (r: Stage)
    ensures
        r == spec_advance(s, e),
{
    match (s, e) {
        (Stage::Start, ConnEvent::Admission(true)) => Stage::Admitted,
        (Stage::Start, ConnEvent::Admission(false)) => Stage::Failed(ErrorKind::RateExceeded),
        (Stage::Admitted, ConnEvent::Handshake(None)) => Stage::Established,
        (Stage::Admitted, ConnEvent::Handshake(Some(k))) => Stage::Failed(k),
        (Stage::Established, ConnEvent::Detection) => Stage::Detected,
        (Stage::Detected, ConnEvent::Selection(true)) => Stage::Routed,
        (Stage::Detected, ConnEvent::Selection(false)) =>
            Stage::Failed(ErrorKind::ResourceExhausted),
        (Stage::Routed, ConnEvent::Relay(true)) => Stage::Done,
        (Stage::Routed, ConnEvent::Relay(false)) => Stage::Failed(ErrorKind::IoError),
        (_, _) => Stage::Failed(ErrorKind::ProtocolViolation),
    }
}

/// Law: the pipeline only moves forward.  Every transition strictly
/// increases the stage rank, so within one connection admission precedes
/// the handshake, which precedes detection, routing and the relay, and no
/// stage is ever re-entered.
pub proof fn lemma_stage_order(s: Stage, e: ConnEvent)
    ensures
        stage_rank(spec_advance(s, e)) > stage_rank(s) || s is Done || s is Failed,
{
}

/// Telemetry counters emitted by the pipeline.  The sink that exports them
/// is the caller's concern; failures there never abort a connection.
pub struct RoutingMetrics {
    /// Route selections made.
    pub decisions: u64,
    /// Total milliseconds spent deciding, over all decisions.
    pub decision_latency_ms_total: u64,
    /// Terminal errors, by taxonomy kind.
    pub errors_crypto: u64,
    /// Malformed-message failures.
    pub errors_protocol: u64,
    /// Transport failures.
    pub errors_io: u64,
    /// Rejections for want of routes or permits.
    pub errors_resource: u64,
    /// Admission rejections.
    pub errors_rate: u64,
    /// Deadline failures.
    pub errors_timeout: u64,
    /// Bytes relayed from client to upstream.
    pub bytes_inbound: u64,
    /// Bytes relayed from upstream to client.
    pub bytes_outbound: u64,
}

/// `a + b`, saturating at the top of `u64`.
pub open spec fn sat_add(a: u64, b: u64) -> u64 {
    if a + b > u64::MAX { u64::MAX } else { (a + b) as u64 }
}

/// Saturating counter increment.
fn bump(counter: &mut u64, by: u64)
    ensures
        *final(counter) == sat_add(*old(counter), by),
{
    if *counter <= u64::MAX - by {
        *counter = *counter + by;
    } else {
        *counter = u64::MAX;
    }
}

impl RoutingMetrics {
    /// All counters at zero.
    pub fn new() -> (r: RoutingMetrics)
        ensures
            r.decisions == 0,
            r.decision_latency_ms_total == 0,
            r.errors_crypto == 0,
            r.errors_protocol == 0,
            r.errors_io == 0,
            r.errors_resource == 0,
            r.errors_rate == 0,
            r.errors_timeout == 0,
            r.bytes_inbound == 0,
            r.bytes_outbound == 0,
    {
        RoutingMetrics {
            decisions: 0,
            decision_latency_ms_total: 0,
            errors_crypto: 0,
            errors_protocol: 0,
            errors_io: 0,
            errors_resource: 0,
            errors_rate: 0,
            errors_timeout: 0,
            bytes_inbound: 0,
            bytes_outbound: 0,
        }
    }

    /// Count one routing decision and the time it took.
    pub fn record_decision(&mut self, latency_ms: u64)
        ensures
            final(self).decisions == sat_add(old(self).decisions, 1),
            final(self).decision_latency_ms_total ==
                sat_add(old(self).decision_latency_ms_total, latency_ms),
            final(self).bytes_inbound == old(self).bytes_inbound,
            final(self).bytes_outbound == old(self).bytes_outbound,
    {
        bump(&mut self.decisions, 1);
        bump(&mut self.decision_latency_ms_total, latency_ms);
    }

    /// Count one terminal error of the given kind.
    pub fn record_error(&mut self, kind: ErrorKind)
        ensures
            final(self).errors_crypto == sat_add(old(self).errors_crypto,
                if kind == ErrorKind::CryptoError { 1u64 } else { 0u64 }),
            final(self).errors_protocol == sat_add(old(self).errors_protocol,
                if kind == ErrorKind::ProtocolViolation { 1u64 } else { 0u64 }),
            final(self).errors_io == sat_add(old(self).errors_io,
                if kind == ErrorKind::IoError { 1u64 } else { 0u64 }),
            final(self).errors_resource == sat_add(old(self).errors_resource,
                if kind == ErrorKind::ResourceExhausted { 1u64 } else { 0u64 }),
            final(self).errors_rate == sat_add(old(self).errors_rate,
                if kind == ErrorKind::RateExceeded { 1u64 } else { 0u64 }),
            final(self).errors_timeout == sat_add(old(self).errors_timeout,
                if kind == ErrorKind::Timeout { 1u64 } else { 0u64 }),
            final(self).decisions == old(self).decisions,
            final(self).bytes_inbound == old(self).bytes_inbound,
            final(self).bytes_outbound == old(self).bytes_outbound,
    {
        match kind {
            ErrorKind::CryptoError => bump(&mut self.errors_crypto, 1),
            ErrorKind::ProtocolViolation => bump(&mut self.errors_protocol, 1),
            ErrorKind::IoError => bump(&mut self.errors_io, 1),
            ErrorKind::ResourceExhausted => bump(&mut self.errors_resource, 1),
            ErrorKind::RateExceeded => bump(&mut self.errors_rate, 1),
            ErrorKind::Timeout => bump(&mut self.errors_timeout, 1),
        }
    }

    /// Count relayed bytes, per direction.
    pub fn record_bytes(&mut self, inbound: u64, outbound: u64)
        ensures
            final(self).bytes_inbound == sat_add(old(self).bytes_inbound, inbound),
            final(self).bytes_outbound == sat_add(old(self).bytes_outbound, outbound),
            final(self).decisions == old(self).decisions,
    {
        bump(&mut self.bytes_inbound, inbound);
        bump(&mut self.bytes_outbound, outbound);
    }
}

/// Configuration surface of the core, consumed at construction.
pub struct RouterConfig {
    /// The routing strategy.
    pub strategy: RoutingStrategy,
    /// Connection-pool concurrency ceiling.
    pub pool_size: usize,
    /// Rate-limiter refill, in milli-tokens per second.
    pub rate_milli_per_sec: u64,
    /// Rate-limiter burst capacity, in whole tokens.
    pub burst: u64,
    /// Handshake deadline in milliseconds.
    pub handshake_timeout_ms: u64,
    /// Upstream connect deadline in milliseconds.
    pub connect_timeout_ms: u64,
    /// Circuit-breaker failure threshold.
    pub failure_threshold: u32,
    /// Circuit-breaker cool-down in milliseconds.
    pub cool_down_ms: u64,
    /// Rolling latency-window length per endpoint.
    pub sample_window: usize,
}

impl RouterConfig {
    /// Structural soundness of the whole configuration.
    pub open spec fn wf(&self) -> bool {
        &&& self.strategy.wf()
        &&& self.pool_size >= 1
        &&& 1 <= self.burst <= MAX_BURST
        &&& self.rate_milli_per_sec <= MAX_RATE
        &&& self.failure_threshold >= 1
        &&& 1 <= self.sample_window <= MAX_WINDOW
    }
}

/// The top-level orchestrator state shared by all connections.
pub struct RoutingController {
    /// The active strategy, immutable for the controller's lifetime.
    pub strategy: RoutingStrategy,
    /// Telemetry counters.
    pub metrics: RoutingMetrics,
    /// Per-endpoint routing state, circuit breakers included.
    pub endpoints: Vec<EndpointState>,
    /// The bounded upstream connection pool.
    pub connection_pool: ConnectionPool,
    /// Per-source admission control.
    pub rate_limiter: RateLimiter,
    /// Upstream connect deadline handed out with each route.
    pub connect_timeout_ms: u64,
    /// Handshake deadline for the I/O layer.
    pub handshake_timeout_ms: u64,
    /// Breaker failure threshold for new endpoints.
    pub failure_threshold: u32,
    /// Breaker cool-down for new endpoints.
    pub cool_down_ms: u64,
    /// Latency-window length for outcome recording.
    pub sample_window: usize,
}

impl RoutingController {
    /// Structural soundness of all owned state.
    pub open spec fn wf(&self) -> bool {
        &&& self.strategy.wf()
        &&& endpoints_wf(self.endpoints@)
        &&& self.connection_pool.wf()
        &&& self.rate_limiter.wf()
        &&& self.failure_threshold >= 1
        &&& 1 <= self.sample_window <= MAX_WINDOW
    }

    /// A controller over an empty endpoint table.
    pub fn new(config: RouterConfig) -> (r: RoutingController)
        requires
            config.wf(),
        ensures
            r.wf(),
            r.endpoints@.len() == 0,
            r.connection_pool.pool_size == config.pool_size,
            r.connection_pool.checked_out == 0,
            r.rate_limiter.rate_milli_per_sec == config.rate_milli_per_sec,
            r.rate_limiter.burst == config.burst,
            r.connect_timeout_ms == config.connect_timeout_ms,
            r.handshake_timeout_ms == config.handshake_timeout_ms,
            r.sample_window == (match config.strategy {
                RoutingStrategy::LatencyOptimized { historical_samples, .. } =>
                    historical_samples,
                _ => config.sample_window,
            }),
            r.strategy == config.strategy,
    {
        let RouterConfig {
            strategy,
            pool_size,
            rate_milli_per_sec,
            burst,
            handshake_timeout_ms,
            connect_timeout_ms,
            failure_threshold,
            cool_down_ms,
            sample_window,
        } = config;
        // The latency strategy's rolling window is the one outcome
        // recording must maintain.
        let sample_window = match &strategy {
            RoutingStrategy::LatencyOptimized { historical_samples, .. } =>
                *historical_samples,
            _ => sample_window,
        };
        RoutingController {
            strategy,
            metrics: RoutingMetrics::new(),
            endpoints: Vec::new(),
            connection_pool: ConnectionPool::new(pool_size),
            rate_limiter: RateLimiter::new(rate_milli_per_sec, burst),
            connect_timeout_ms,
            handshake_timeout_ms,
            failure_threshold,
            cool_down_ms,
            sample_window,
        }
    }

    /// Register an upstream endpoint with its configured cost.
    pub fn add_endpoint(&mut self, id: u64, cost: u64)
        requires
            old(self).wf(),
            cost <= MAX_COST,
        ensures
            final(self).wf(),
            final(self).endpoints@.len() == old(self).endpoints@.len() + 1,
            final(self).endpoints@.last().id == id,
            final(self).endpoints@.last().cost == cost,
            forall|i: int| 0 <= i < old(self).endpoints@.len() ==>
                final(self).endpoints@[i] == old(self).endpoints@[i],
            final(self).strategy == old(self).strategy,
            final(self).connection_pool == old(self).connection_pool,
            final(self).rate_limiter == old(self).rate_limiter,
            final(self).sample_window == old(self).sample_window,
    {
        let e = EndpointState::new(id, cost, self.failure_threshold, self.cool_down_ms);
        self.endpoints.push(e);
    }

    /// Admission control for one inbound connection: the first pipeline
    /// stage, scoped per connection source.  A rejection is counted under
    /// the rate-exceeded label.
    pub fn admit_connection(&mut self, context: &ConnectionContext, now_ms: u64) -> (r: bool)
        requires
            old(self).wf(),
        ensures
            final(self).wf(),
            final(self).endpoints@ == old(self).endpoints@,
            final(self).connection_pool == old(self).connection_pool,
            final(self).strategy == old(self).strategy,
            final(self).sample_window == old(self).sample_window,
            match crate::limiter::key_index(old(self).rate_limiter.buckets@, context.source) {
                Some(i) => r == old(self).rate_limiter.buckets@[i].1.spec_admits(now_ms),
                None => r == true,
            },
    {
        let ok = self.rate_limiter.try_admit(context.source, now_ms);
        if !ok {
            self.metrics.record_error(ErrorKind::RateExceeded);
        }
        ok
    }

    /// Choose a route by the active strategy, consuming the chosen
    /// endpoint's half-open trial when its cool-down has elapsed.  `None`
    /// means no eligible candidate: the connection is rejected as
    /// `ResourceExhausted` and counted so.
    pub fn choose_route(&mut self, now_ms: u64) -> (r: Option<Route>)
        requires
            old(self).wf(),
        ensures
            final(self).wf(),
            final(self).strategy == old(self).strategy,
            final(self).connection_pool == old(self).connection_pool,
            final(self).rate_limiter == old(self).rate_limiter,
            final(self).sample_window == old(self).sample_window,
            final(self).endpoints@.len() == old(self).endpoints@.len(),
            r matches Some(route) ==> {
                &&& route.connect_timeout_ms == old(self).connect_timeout_ms
                &&& exists|i: int| {
                    &&& 0 <= i < old(self).endpoints@.len()
                    &&& select_ok(old(self).strategy, old(self).endpoints@, now_ms, Some(i))
                    &&& route.endpoint == old(self).endpoints@[i].id
                }
            },
            r is None ==> select_ok(
                old(self).strategy, old(self).endpoints@, now_ms, None::<int>),
    {
        let picked = select_route(&self.strategy, &self.endpoints, now_ms);
        match picked {
            Some(i) => {
                proof {
                    crate::routing::lemma_select_ok_bounds(
                        self.strategy, self.endpoints@, now_ms, i as int);
                }
                let id = self.endpoints[i].id;
                let mut e = self.endpoints.remove(i);
                let _trial = e.breaker.check(now_ms);
                self.endpoints.insert(i, e);
                proof {
                    assert(forall|j: int| 0 <= j < self.endpoints@.len() && j != i ==>
                        self.endpoints@[j] == old(self).endpoints@[j]);
                    assert(self.endpoints@[i as int].wf());
                }
                Some(Route { endpoint: id, connect_timeout_ms: self.connect_timeout_ms })
            }
            None => {
                self.metrics.record_error(ErrorKind::ResourceExhausted);
                None
            }
        }
    }

    /// Record the outcome of a finished relay for the endpoint at `idx`:
    /// the latency sample, the breaker transition and the byte counters.
    pub fn finish_relay(
        &mut self,
        idx: usize,
        success: bool,
        latency_ms: u64,
        bytes_in: u64,
        bytes_out: u64,
        now_ms: u64,
    )
        requires
            old(self).wf(),
            idx < old(self).endpoints@.len(),
        ensures
            final(self).wf(),
            final(self).endpoints@.len() == old(self).endpoints@.len(),
            final(self).strategy == old(self).strategy,
            final(self).connection_pool == old(self).connection_pool,
            final(self).rate_limiter == old(self).rate_limiter,
            final(self).sample_window == old(self).sample_window,
            forall|j: int| 0 <= j < old(self).endpoints@.len() && j != idx ==>
                final(self).endpoints@[j] == old(self).endpoints@[j],
            success ==> {
                &&& final(self).endpoints@[idx as int].breaker.state
                    == crate::breaker::CircuitState::Closed
                &&& final(self).endpoints@[idx as int].last_success_ms == now_ms
            },
            !success ==> final(self).endpoints@[idx as int].breaker
                == old(self).endpoints@[idx as int].breaker.spec_record_failure(now_ms),
            final(self).metrics.bytes_inbound
                == sat_add(old(self).metrics.bytes_inbound, bytes_in),
            final(self).metrics.bytes_outbound
                == sat_add(old(self).metrics.bytes_outbound, bytes_out),
    {
        let mut e = self.endpoints.remove(idx);
        record_outcome(&mut e, success, latency_ms, self.sample_window, now_ms);
        self.endpoints.insert(idx, e);
        proof {
            assert(forall|j: int| 0 <= j < self.endpoints@.len() && j != idx ==>
                self.endpoints@[j] == old(self).endpoints@[j]);
            assert(self.endpoints@[idx as int].wf());
        }
        self.metrics.record_bytes(bytes_in, bytes_out);
    }

    /// The index of the endpoint with identifier `id`, if any.
    pub fn endpoint_index(&self, id: u64) -> (r: Option<usize>)
        ensures
            r matches Some(i) ==> i < self.endpoints@.len() && self.endpoints@[i as int].id == id,
            r is None ==> forall|j: int|
                0 <= j < self.endpoints@.len() ==> self.endpoints@[j].id != id,
    {
        let n = self.endpoints.len();
        let mut i: usize = 0;
        while i < n
            invariant
                n == self.endpoints@.len(),
                i <= n,
                forall|j: int| 0 <= j < i ==> self.endpoints@[j].id != id,
            decreases n - i,
        {
            if self.endpoints[i].id == id {
                return Some(i);
            }
            i = i + 1;
        }
        None
    }
}

} // verus!
