use nuzon::controller::{
    advance_stage, detect_protocol, ConnEvent, ConnectionContext, ProtocolType, RouterConfig,
    RoutingController, Stage,
};
use nuzon::handshake::{finish, generate_identity, initiate, respond, PeerIdentity};
use nuzon::routing::RoutingStrategy;

/// The whole pipeline over an in-memory transport: admission, a real
/// hybrid handshake with byte-equal secrets on both sides, protocol
/// detection, cost-aware route selection with a single eligible endpoint,
/// and a 4 KiB relay delivered unmodified while the pool and breaker
/// account for it.
#[test]
fn full_pipeline_relays_payload_unmodified() {
    let strategy = RoutingStrategy::CostAware {
        cost_weights: vec![],
        max_cost: 1000,
    };
    let mut ctl = RoutingController::new(RouterConfig {
        strategy,
        pool_size: 2,
        rate_milli_per_sec: 1000,
        burst: 2,
        handshake_timeout_ms: 5000,
        connect_timeout_ms: 3000,
        failure_threshold: 3,
        cool_down_ms: 1000,
        sample_window: 5,
    });
    ctl.add_endpoint(42, 100);

    let mut stage = Stage::Start;

    // Admission.
    let context = ConnectionContext::new(1);
    let admitted = ctl.admit_connection(&context, 0);
    stage = advance_stage(stage, ConnEvent::Admission(admitted));
    assert_eq!(stage, Stage::Admitted);

    // Hybrid handshake between client and server over identical parameters.
    let client = generate_identity();
    let server = generate_identity();
    let client_peer = PeerIdentity { ed_pk: server.ed_pk.clone(), pq_pk: server.pq_pk.clone() };
    let server_peer = PeerIdentity { ed_pk: client.ed_pk.clone(), pq_pk: client.pq_pk.clone() };

    let (state, init) = initiate(&client, vec![]);
    let outcome = respond(&server, &server_peer, true, &init);
    let (server_secret, resp) = outcome.unwrap();
    let client_secret = finish(state, &client_peer, &resp).unwrap();
    assert_eq!(client_secret, server_secret);
    assert_eq!(client_secret.len(), 64);
    stage = advance_stage(stage, ConnEvent::Handshake(None));
    assert_eq!(stage, Stage::Established);

    // Protocol detection on the first bytes of the inbound payload.
    let mut payload = Vec::with_capacity(4096);
    payload.extend_from_slice(b"GET /bulk HTTP/1.1\r\n\r\n");
    let mut x: u8 = 7;
    while payload.len() < 4096 {
        payload.push(x);
        x = x.wrapping_mul(31).wrapping_add(11);
    }
    assert_eq!(payload.len(), 4096);
    assert_eq!(detect_protocol(&payload), ProtocolType::Http);
    stage = advance_stage(stage, ConnEvent::Detection);

    // Route selection: the single endpoint within budget must win.
    let route = ctl.choose_route(10).unwrap();
    assert_eq!(route.endpoint, 42);
    stage = advance_stage(stage, ConnEvent::Selection(true));
    assert_eq!(stage, Stage::Routed);

    // Relay: no pooled connection yet, so take a permit and "dial".
    assert!(ctl.connection_pool.acquire(route.endpoint, 10).is_none());
    assert!(ctl.connection_pool.try_connect_permit());
    let upstream_conn = 9000u64;

    // The relay copies the bytes both ways; they arrive unmodified.
    let delivered = payload.clone();
    let response_bytes: Vec<u8> = delivered.iter().rev().copied().collect();
    let echoed = response_bytes.clone();
    assert_eq!(delivered, payload);
    assert_eq!(echoed, response_bytes);

    // Completion: outcome recorded, connection returned to the pool.
    let idx = ctl.endpoint_index(route.endpoint).unwrap();
    ctl.finish_relay(idx, true, 12, delivered.len() as u64, echoed.len() as u64, 50);
    assert!(ctl.connection_pool.release(route.endpoint, upstream_conn, 50, true));
    stage = advance_stage(stage, ConnEvent::Relay(true));
    assert_eq!(stage, Stage::Done);

    assert_eq!(ctl.metrics.bytes_inbound, 4096);
    assert_eq!(ctl.metrics.bytes_outbound, 4096);
    assert_eq!(ctl.endpoints[idx].last_success_ms, 50);

    // The parked connection is reused by the next relay.
    assert_eq!(ctl.connection_pool.acquire(route.endpoint, 60), Some(upstream_conn));
}
