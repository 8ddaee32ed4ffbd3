use nuzon::breaker::{CircuitBreaker, CircuitState};
use nuzon::controller::{
    advance_stage, detect_protocol, ConnEvent, ConnectionContext, ProtocolType, RouterConfig,
    RoutingController, Stage,
};
use nuzon::limiter::{RateBudget, RateLimiter};
use nuzon::pool::ConnectionPool;
use nuzon::routing::{
    record_latency, select_route, trimmed_mean_of, CostWeight, EndpointState, RoutingStrategy,
};
use nuzon::ErrorKind;

fn endpoint_with_samples(id: u64, cost: u64, samples: &[u64]) -> EndpointState {
    let mut e = EndpointState::new(id, cost, 3, 1000);
    for &s in samples {
        record_latency(&mut e, s, 5);
    }
    e
}

#[test]
fn latency_strategy_prefers_trimmed_mean() {
    // Endpoint A has one 100 ms outlier beyond the threshold; its trimmed
    // mean of 10 ms beats B's 20 ms.
    let a = endpoint_with_samples(1, 0, &[10, 10, 10, 10, 100]);
    let b = endpoint_with_samples(2, 0, &[20, 20, 20, 20, 20]);
    assert_eq!(trimmed_mean_of(&a, 50), 10);
    assert_eq!(trimmed_mean_of(&b, 50), 20);

    let strategy = RoutingStrategy::LatencyOptimized {
        historical_samples: 5,
        outlier_threshold_ms: 50,
    };
    let endpoints = vec![b, a];
    let picked = select_route(&strategy, &endpoints, 0).unwrap();
    assert_eq!(endpoints[picked].id, 1);
}

#[test]
fn latency_ties_break_by_recency() {
    let mut a = endpoint_with_samples(1, 0, &[10, 10]);
    let mut b = endpoint_with_samples(2, 0, &[10, 10]);
    a.last_success_ms = 50;
    b.last_success_ms = 90;
    let strategy = RoutingStrategy::LatencyOptimized {
        historical_samples: 5,
        outlier_threshold_ms: 1000,
    };
    let endpoints = vec![a, b];
    let picked = select_route(&strategy, &endpoints, 100).unwrap();
    assert_eq!(endpoints[picked].id, 2);
}

#[test]
fn rolling_window_drops_oldest_samples() {
    let mut e = EndpointState::new(7, 0, 3, 1000);
    for s in [1u64, 2, 3, 4, 5, 6, 7] {
        record_latency(&mut e, s, 5);
    }
    assert_eq!(e.samples, vec![3, 4, 5, 6, 7]);
}

#[test]
fn cost_strategy_rejects_over_budget_and_picks_cheapest() {
    let a = endpoint_with_samples(1, 500, &[10]);
    let b = endpoint_with_samples(2, 300, &[10]);
    let c = endpoint_with_samples(3, 100, &[10]);
    let strategy = RoutingStrategy::CostAware {
        // Triple the cost of endpoint 3 so endpoint 2 wins; endpoint 1 is
        // over budget outright.
        cost_weights: vec![CostWeight { endpoint: 3, weight_milli: 3000 }],
        max_cost: 400,
    };
    let endpoints = vec![a, b, c];
    let picked = select_route(&strategy, &endpoints, 0).unwrap();
    assert_eq!(endpoints[picked].id, 2);
}

#[test]
fn cost_strategy_with_no_affordable_candidate_returns_none() {
    let a = endpoint_with_samples(1, 500, &[10]);
    let strategy = RoutingStrategy::CostAware {
        cost_weights: vec![],
        max_cost: 400,
    };
    assert!(select_route(&strategy, &vec![a], 0).is_none());
}

#[test]
fn hybrid_strategy_balances_latency_and_cost() {
    // A is fast but expensive, B slow but cheap; with all weight on
    // latency A must win, with all weight on cost B must win.
    let a = endpoint_with_samples(1, 1000, &[10]);
    let b = endpoint_with_samples(2, 10, &[1000]);
    let endpoints = vec![a, b];

    let latency_heavy = RoutingStrategy::Hybrid {
        latency_weight: 1000,
        cost_weight: 0,
        fallback: Box::new(RoutingStrategy::CostAware { cost_weights: vec![], max_cost: 0 }),
    };
    let picked = select_route(&latency_heavy, &endpoints, 0).unwrap();
    assert_eq!(endpoints[picked].id, 1);

    let cost_heavy = RoutingStrategy::Hybrid {
        latency_weight: 0,
        cost_weight: 1000,
        fallback: Box::new(RoutingStrategy::CostAware { cost_weights: vec![], max_cost: 0 }),
    };
    let picked = select_route(&cost_heavy, &endpoints, 0).unwrap();
    assert_eq!(endpoints[picked].id, 2);
}

#[test]
fn breaker_opens_after_three_consecutive_failures() {
    let mut b = CircuitBreaker::new(3, 1000);
    b.record_failure(100);
    b.record_failure(200);
    assert_eq!(b.state, CircuitState::Closed);
    b.record_failure(300);
    assert_eq!(b.state, CircuitState::Open(300));

    // Excluded until the cool-down elapses.
    assert!(!b.check(300));
    assert!(!b.check(1299));
    // Then exactly one trial is permitted.
    assert!(b.check(1300));
    assert_eq!(b.state, CircuitState::HalfOpen);
    assert!(!b.check(1300));
    assert!(!b.check(5000));

    // A successful trial closes the breaker again.
    b.record_success();
    assert_eq!(b.state, CircuitState::Closed);
    assert!(b.check(5001));
}

#[test]
fn failed_half_open_trial_reopens_and_restarts_cool_down() {
    let mut b = CircuitBreaker::new(1, 1000);
    b.record_failure(0);
    assert_eq!(b.state, CircuitState::Open(0));
    assert!(b.check(1000));
    b.record_failure(1500);
    assert_eq!(b.state, CircuitState::Open(1500));
    assert!(!b.check(2000));
    assert!(b.check(2500));
}

#[test]
fn open_breaker_excludes_endpoint_from_selection() {
    let mut a = endpoint_with_samples(1, 0, &[10]);
    let b = endpoint_with_samples(2, 0, &[20]);
    a.breaker.record_failure(0);
    a.breaker.record_failure(0);
    a.breaker.record_failure(0);
    assert_eq!(a.breaker.state, CircuitState::Open(0));

    let strategy = RoutingStrategy::LatencyOptimized {
        historical_samples: 5,
        outlier_threshold_ms: 1000,
    };
    let endpoints = vec![a, b];
    // While open, the slower endpoint is the only candidate.
    let picked = select_route(&strategy, &endpoints, 500).unwrap();
    assert_eq!(endpoints[picked].id, 2);
    // After the cool-down the faster endpoint is eligible again.
    let picked = select_route(&strategy, &endpoints, 1500).unwrap();
    assert_eq!(endpoints[picked].id, 1);
}

#[test]
fn pool_never_exceeds_its_ceiling() {
    let mut pool = ConnectionPool::new(2);
    assert!(pool.acquire(1, 0).is_none());
    assert!(pool.try_connect_permit());
    assert!(pool.try_connect_permit());
    assert_eq!(pool.checked_out, 2);
    // The ceiling is reached: no further permit, no idle entry to take.
    assert!(!pool.try_connect_permit());
    assert!(pool.acquire(1, 0).is_none());

    // Release one healthy connection: it parks, and can be checked out.
    assert!(pool.release(1, 11, 5, true));
    assert_eq!(pool.checked_out, 1);
    assert_eq!(pool.acquire(1, 6), Some(11));
    assert_eq!(pool.checked_out, 2);

    // A failed connection is discarded, freeing its permit.
    assert!(!pool.release(1, 11, 7, false));
    assert_eq!(pool.checked_out, 1);
    assert!(pool.acquire(1, 8).is_none());
}

#[test]
fn pool_interleaved_acquire_release_stays_bounded() {
    let mut pool = ConnectionPool::new(3);
    let mut checked_out: Vec<(u64, u64)> = Vec::new();
    let mut next_conn = 100u64;
    for step in 0..200u64 {
        if step % 3 == 0 && !checked_out.is_empty() {
            let (ep, conn) = checked_out.remove(0);
            pool.release(ep, conn, step, step % 2 == 0);
        } else {
            let ep = step % 4;
            if let Some(conn) = pool.acquire(ep, step) {
                checked_out.push((ep, conn));
            } else if pool.try_connect_permit() {
                checked_out.push((ep, next_conn));
                next_conn += 1;
            }
        }
        assert!(pool.checked_out <= pool.pool_size);
        assert_eq!(pool.checked_out, checked_out.len());
    }
}

#[test]
fn pool_evicts_stale_idle_entries() {
    let mut pool = ConnectionPool::new(4);
    assert!(pool.try_connect_permit());
    assert!(pool.try_connect_permit());
    pool.release(1, 11, 10, true);
    pool.release(2, 22, 100, true);
    pool.evict_idle(50);
    assert!(pool.acquire(1, 200).is_none());
    assert_eq!(pool.acquire(2, 200), Some(22));
}

#[test]
fn bucket_admits_once_per_second_with_burst_one() {
    let mut bucket = RateBudget::new(1000, 1, 0);
    assert!(bucket.try_admit(0));
    assert!(!bucket.try_admit(0));
    assert!(!bucket.try_admit(999));
    assert!(bucket.try_admit(1000));
    assert!(!bucket.try_admit(1000));
}

#[test]
fn limiter_tracks_sources_independently() {
    let mut limiter = RateLimiter::new(1000, 1);
    assert!(limiter.try_admit(7, 0));
    assert!(!limiter.try_admit(7, 0));
    assert!(limiter.try_admit(8, 0));
    assert!(limiter.try_admit(7, 1000));
}

#[test]
fn burst_capacity_allows_back_to_back_admissions() {
    let mut bucket = RateBudget::new(1000, 3, 0);
    assert!(bucket.try_admit(0));
    assert!(bucket.try_admit(0));
    assert!(bucket.try_admit(0));
    assert!(!bucket.try_admit(0));
}

#[test]
fn protocol_detection_by_first_bytes() {
    assert_eq!(detect_protocol(&vec![0x16, 0x03, 0x03, 0x00]), ProtocolType::Tls);
    assert_eq!(detect_protocol(&b"GET / HTTP/1.1".to_vec()), ProtocolType::Http);
    assert_eq!(detect_protocol(&b"POST /x".to_vec()), ProtocolType::Http);
    assert_eq!(detect_protocol(&b"PUT /y".to_vec()), ProtocolType::Http);
    assert_eq!(detect_protocol(&b"HEAD /z".to_vec()), ProtocolType::Http);
    assert_eq!(detect_protocol(&b"\x00\x01\x02\x03".to_vec()), ProtocolType::Unknown);
    assert_eq!(detect_protocol(&Vec::new()), ProtocolType::Unknown);
}

#[test]
fn pipeline_stages_advance_in_order() {
    let s = Stage::Start;
    let s = advance_stage(s, ConnEvent::Admission(true));
    assert_eq!(s, Stage::Admitted);
    let s = advance_stage(s, ConnEvent::Handshake(None));
    assert_eq!(s, Stage::Established);
    let s = advance_stage(s, ConnEvent::Detection);
    assert_eq!(s, Stage::Detected);
    let s = advance_stage(s, ConnEvent::Selection(true));
    assert_eq!(s, Stage::Routed);
    let s = advance_stage(s, ConnEvent::Relay(true));
    assert_eq!(s, Stage::Done);
}

#[test]
fn pipeline_rejects_out_of_order_events() {
    // A relay event cannot arrive before routing.
    let s = advance_stage(Stage::Admitted, ConnEvent::Relay(true));
    assert_eq!(s, Stage::Failed(ErrorKind::ProtocolViolation));
    let s = advance_stage(Stage::Start, ConnEvent::Admission(false));
    assert_eq!(s, Stage::Failed(ErrorKind::RateExceeded));
    let s = advance_stage(Stage::Detected, ConnEvent::Selection(false));
    assert_eq!(s, Stage::Failed(ErrorKind::ResourceExhausted));
}

fn demo_config(strategy: RoutingStrategy) -> RouterConfig {
    RouterConfig {
        strategy,
        pool_size: 4,
        rate_milli_per_sec: 1000,
        burst: 2,
        handshake_timeout_ms: 5000,
        connect_timeout_ms: 3000,
        failure_threshold: 3,
        cool_down_ms: 1000,
        sample_window: 5,
    }
}

#[test]
fn controller_records_outcomes_and_opens_breaker() {
    let strategy = RoutingStrategy::LatencyOptimized {
        historical_samples: 5,
        outlier_threshold_ms: 1000,
    };
    let mut ctl = RoutingController::new(demo_config(strategy));
    ctl.add_endpoint(1, 100);
    ctl.add_endpoint(2, 100);

    let route = ctl.choose_route(0).unwrap();
    let idx = ctl.endpoint_index(route.endpoint).unwrap();
    ctl.finish_relay(idx, false, 10, 0, 0, 100);
    ctl.finish_relay(idx, false, 10, 0, 0, 200);
    ctl.finish_relay(idx, false, 10, 0, 0, 300);
    assert_eq!(ctl.endpoints[idx].breaker.state, CircuitState::Open(300));

    // The tripped endpoint is excluded; the other one carries the traffic.
    let other = ctl.choose_route(400).unwrap();
    assert_ne!(other.endpoint, route.endpoint);

    // After a success the breaker closes and recency is stamped.
    let other_idx = ctl.endpoint_index(other.endpoint).unwrap();
    ctl.finish_relay(other_idx, true, 25, 512, 2048, 500);
    assert_eq!(ctl.endpoints[other_idx].breaker.state, CircuitState::Closed);
    assert_eq!(ctl.endpoints[other_idx].last_success_ms, 500);
    assert_eq!(ctl.metrics.bytes_inbound, 512);
    assert_eq!(ctl.metrics.bytes_outbound, 2048);
}

#[test]
fn controller_admission_uses_the_rate_limiter() {
    let strategy = RoutingStrategy::LatencyOptimized {
        historical_samples: 5,
        outlier_threshold_ms: 1000,
    };
    let mut ctl = RoutingController::new(RouterConfig {
        burst: 1,
        ..demo_config(strategy)
    });
    let ctx = ConnectionContext::new(7);
    assert!(ctl.admit_connection(&ctx, 0));
    assert!(!ctl.admit_connection(&ctx, 0));
    assert_eq!(ctl.metrics.errors_rate, 1);
    assert!(ctl.admit_connection(&ctx, 1000));
}

#[test]
fn exhausted_routes_are_counted() {
    let strategy = RoutingStrategy::LatencyOptimized {
        historical_samples: 5,
        outlier_threshold_ms: 1000,
    };
    let mut ctl = RoutingController::new(demo_config(strategy));
    assert!(ctl.choose_route(0).is_none());
    assert_eq!(ctl.metrics.errors_resource, 1);
}
