use holon_http::projection_gate::{flight_result, FlightOutcome, GateDecision, ProjectionGate, ProjectionKey};

fn lead(gate: &mut ProjectionGate, key: &ProjectionKey, now: u64) -> u64 {
    match gate.begin(key, now) {
        GateDecision::Lead(f) => f,
        other => panic!("expected to lead, got {other:?}"),
    }
}

fn run(gate: &mut ProjectionGate, key: &ProjectionKey, now: u64, bytes: &[u8]) -> Vec<u8> {
    match gate.begin(key, now) {
        GateDecision::Ready(b) => b,
        GateDecision::Lead(f) => {
            gate.finish(key, f, Some(bytes.to_vec()), now);
            bytes.to_vec()
        }
        other => panic!("unexpected {other:?}"),
    }
}

#[test]
fn concurrent_requests_for_the_same_key_share_one_build() {
    let mut gate = ProjectionGate::new(4, 250);
    let key = ProjectionKey::AgentsList;
    let flight = lead(&mut gate, &key, 0);
    let mut builds = 1;
    for _ in 0..49 {
        match gate.begin(&key, 1) {
            GateDecision::Wait(f) => assert_eq!(f, flight),
            GateDecision::Lead(_) => builds += 1,
            other => panic!("unexpected {other:?}"),
        }
    }
    gate.finish(&key, flight, Some(b"shared".to_vec()), 2);
    assert_eq!(builds, 1);
    assert!(matches!(gate.begin(&key, 3), GateDecision::Ready(b) if b == b"shared"));
}

#[test]
fn cached_bytes_expire_after_the_ttl() {
    let mut gate = ProjectionGate::new(4, 250);
    let key = ProjectionKey::AgentsList;
    let first = run(&mut gate, &key, 0, b"first");
    let cached = run(&mut gate, &key, 249, b"unexpected");
    let rebuilt = run(&mut gate, &key, 251, b"rebuilt");
    assert_eq!(first, b"first");
    assert_eq!(cached, first);
    assert_eq!(rebuilt, b"rebuilt");
}

#[test]
fn cache_miss_prunes_expired_ready_entries() {
    let mut gate = ProjectionGate::new(4, 250);
    let removed = ProjectionKey::AgentState("removed-agent".into());
    run(&mut gate, &removed, 0, b"stale");
    run(&mut gate, &ProjectionKey::AgentsList, 251, b"agents");
    assert!(!gate.has_entry(&removed));
    assert!(gate.has_entry(&ProjectionKey::AgentsList));
}

#[test]
fn distinct_projection_keys_do_not_share_results() {
    let mut gate = ProjectionGate::new(4, 250);
    let agents = run(&mut gate, &ProjectionKey::AgentsList, 0, b"agents");
    let agent_a = run(&mut gate, &ProjectionKey::AgentState("agent-a".into()), 0, b"agent-a");
    let agent_b = run(&mut gate, &ProjectionKey::AgentState("agent-b".into()), 0, b"agent-b");
    assert_eq!(agents, b"agents");
    assert_eq!(agent_a, b"agent-a");
    assert_eq!(agent_b, b"agent-b");
}

#[test]
fn saturated_gate_rejects_new_keys_but_allows_existing_waiters() {
    let mut gate = ProjectionGate::new(1, 250);
    let a = ProjectionKey::AgentState("agent-a".into());
    let b = ProjectionKey::AgentState("agent-b".into());
    let flight = lead(&mut gate, &a, 0);
    assert!(matches!(gate.begin(&b, 1), GateDecision::Reject));
    assert!(matches!(gate.begin(&a, 1), GateDecision::Wait(f) if f == flight));
    gate.finish(&a, flight, Some(b"agent-a".to_vec()), 2);
    assert!(matches!(gate.begin(&a, 3), GateDecision::Ready(bytes) if bytes == b"agent-a"));
    assert_eq!(gate.builds_in_flight(), 0);
}

#[test]
fn cancelled_leader_releases_the_key_and_waiters() {
    let mut gate = ProjectionGate::new(1, 250);
    let key = ProjectionKey::AgentsList;
    let flight = lead(&mut gate, &key, 0);
    assert!(matches!(gate.begin(&key, 1), GateDecision::Wait(f) if f == flight));
    gate.cancel(&key, flight);
    assert!(!gate.has_entry(&key));
    assert_eq!(run(&mut gate, &key, 2, b"retry"), b"retry");
}

#[test]
fn failed_leader_releases_the_key_for_retry() {
    let mut gate = ProjectionGate::new(1, 250);
    let key = ProjectionKey::AgentsList;
    let flight = lead(&mut gate, &key, 0);
    assert!(matches!(gate.begin(&key, 1), GateDecision::Wait(_)));
    gate.finish(&key, flight, None, 2);
    assert!(!gate.has_entry(&key));
    assert_eq!(gate.builds_in_flight(), 0);
    assert_eq!(run(&mut gate, &key, 3, b"retry"), b"retry");
}

#[test]
fn fresh_gate_can_start_flights_and_runs_none() {
    let gate = ProjectionGate::new(2, 100);
    assert!(gate.can_start_flight());
    assert_eq!(gate.builds_in_flight(), 0);
}

#[test]
fn waiters_receive_the_flight_outcome() {
    assert_eq!(flight_result(FlightOutcome::Built(b"shared".to_vec())).unwrap(), b"shared".to_vec());
    let e = holon_http::errors::error_response("build failed".to_string());
    assert_eq!(flight_result(FlightOutcome::Failed(e)).unwrap_err().envelope.error, "build failed");
    let e = flight_result(FlightOutcome::Cancelled).unwrap_err();
    assert_eq!(e.status, 503);
    assert_eq!(e.envelope.code.as_deref(), Some("projection_leader_cancelled"));
}

#[test]
fn every_request_during_a_flight_waits_for_it() {
    let mut gate = ProjectionGate::new(4, 250);
    let key = ProjectionKey::AgentsList;
    let flight = lead(&mut gate, &key, 0);
    for t in 1..50 {
        assert!(matches!(gate.begin(&key, t), GateDecision::Wait(f) if f == flight));
    }
    assert_eq!(gate.builds_in_flight(), 1);
}
