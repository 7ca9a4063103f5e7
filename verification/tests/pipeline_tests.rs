//! The composed pipeline, end to end.

use aimesh::AiMesh;
use aimesh::AiMeshConfig;
use aimesh::protocol::AiMessage;
use aimesh::protocol::EndpointMetrics;
use aimesh::protocol::HealthStatus;
use std::time::SystemTime;
use std::time::UNIX_EPOCH;

fn now_ns() -> i64 {
    SystemTime::now().duration_since(UNIX_EPOCH).unwrap().as_nanos() as i64
}

fn now_ms() -> i64 {
    SystemTime::now().duration_since(UNIX_EPOCH).unwrap().as_millis() as i64
}

fn now_secs() -> i64 {
    SystemTime::now().duration_since(UNIX_EPOCH).unwrap().as_secs() as i64
}

fn endpoint(id: &str, cost: u64, load: u32, capacity: u32, latency: u32) -> EndpointMetrics {
    EndpointMetrics {
        endpoint_id: id.to_string(),
        capacity,
        current_load: load,
        cost_per_1k_tokens: cost,
        latency_p99_ms: latency,
        error_rate_ppm: 0,
        last_health_check: 0,
        health_status: HealthStatus::Healthy,
    }
}

#[test]
fn test_aimesh_creation() {
    let mesh = AiMesh::new(AiMeshConfig::default(), now_ms());
    assert!(mesh.is_ok());
}

#[test]
fn test_endpoint_registration() {
    let mut mesh = AiMesh::new(AiMeshConfig::default(), now_ms()).unwrap();

    mesh.router.register_endpoint(endpoint("test-endpoint", 10, 0, 100, 50), now_ns());

    let endpoints = mesh.router.list_endpoints();
    assert_eq!(endpoints.len(), 1);
    assert_eq!(endpoints[0].endpoint_id, "test-endpoint");
}

#[test]
fn test_budget_management() {
    let mut mesh = AiMesh::new(AiMeshConfig::default(), now_ms()).unwrap();

    mesh.router.set_budget("test-agent", 1000, i64::MAX);

    let remaining = mesh.router.get_remaining_budget("test-agent");
    assert_eq!(remaining, 1000);

    let result = mesh.router.consume_budget("test-agent", 100);
    assert!(result.is_ok());
    assert_eq!(result.unwrap(), 900);

    let remaining = mesh.router.get_remaining_budget("test-agent");
    assert_eq!(remaining, 900);
}

#[test]
fn test_message_routing() {
    let mut mesh = AiMesh::new(AiMeshConfig::default(), now_ms()).unwrap();

    mesh.router.register_endpoint(endpoint("cheap", 1, 0, 100, 100), now_ns());
    mesh.router.register_endpoint(endpoint("expensive", 50, 0, 100, 50), now_ns());

    let msg = AiMessage::new("test-agent".into(), b"Hello".to_vec(), 100, i64::MAX, now_ns());

    let decision = mesh.router.route(&msg);
    assert!(decision.is_ok());

    let decision = decision.unwrap();
    assert_eq!(decision.target_endpoint, "cheap");
    assert_eq!(decision.fallback_endpoints.len(), 1);
}

#[test]
fn test_deduplication() {
    let mut mesh = AiMesh::new(AiMeshConfig::default(), now_ms()).unwrap();

    let msg = AiMessage::new("agent-1".into(), b"repeat".to_vec(), 100, i64::MAX, now_ns());
    mesh.dedup.record(&msg, b"cached".to_vec(), now_secs());

    let result = mesh.dedup.check_duplicate(&msg, now_secs());
    assert!(result.is_some());
    assert_eq!(result.unwrap(), b"cached".to_vec());

    let other = AiMessage::new("agent-1".into(), b"different".to_vec(), 100, i64::MAX, now_ns());
    assert!(mesh.dedup.check_duplicate(&other, now_secs()).is_none());
}

#[test]
fn integration_test_test_message_validation() {
    let valid = AiMessage::new("valid-agent".into(), b"payload".to_vec(), 100, i64::MAX, now_ns());
    assert!(valid.validate(now_ms()).is_ok());

    let invalid = AiMessage::new("INVALID".into(), b"payload".to_vec(), 100, i64::MAX, now_ns());
    assert!(invalid.validate(now_ms()).is_err());
}

#[test]
fn test_full_message_flow() {
    let mut mesh = AiMesh::new(AiMeshConfig::default(), now_ms()).unwrap();

    mesh.router.register_endpoint(endpoint("backend", 10, 0, 100, 100), now_ns());

    mesh.router.set_budget("flow-agent", 1000, i64::MAX);

    let msg = AiMessage::new("flow-agent".into(), b"Test message".to_vec(), 100, i64::MAX, now_ns());

    let result = mesh.process_message(msg, now_ms(), now_secs());
    assert!(result.is_ok());

    let ack = result.unwrap();
    assert!(ack.is_success());

    let stats = mesh.get_stats(now_ms());
    assert_eq!(stats.observability.messages_total, 1);
}

#[test]
fn test_dedup_hit_skips_router() {
    let mut mesh = AiMesh::new(AiMeshConfig::default(), now_ms()).unwrap();
    mesh.router.register_endpoint(endpoint("backend", 10, 0, 100, 100), now_ns());

    let mut msg = AiMessage::new("a".into(), b"X".to_vec(), 1000, i64::MAX, now_ns());
    msg.dedup_context = "c1".to_string();
    mesh.dedup.record(&msg, b"R".to_vec(), now_secs());

    let repeat = {
        let mut m = AiMessage::new("a".into(), b"X".to_vec(), 1000, i64::MAX, now_ns());
        m.dedup_context = "c1".to_string();
        m
    };
    let decisions_before = mesh.router.get_stats().total_decisions;
    let ack = mesh.process_message(repeat, now_ms(), now_secs()).unwrap();
    assert!(ack.is_success());
    assert_eq!(ack.tokens_used, 0);
    assert_eq!(ack.result, b"R".to_vec());
    // The router was never consulted.
    assert_eq!(mesh.router.get_stats().total_decisions, decisions_before);
}

#[test]
fn test_invalid_message_rejected_by_pipeline() {
    let mut mesh = AiMesh::new(AiMeshConfig::default(), now_ms()).unwrap();
    mesh.router.register_endpoint(endpoint("backend", 10, 0, 100, 100), now_ns());

    let msg = AiMessage::new("BAD AGENT".into(), b"x".to_vec(), 100, i64::MAX, now_ns());
    assert!(mesh.process_message(msg, now_ms(), now_secs()).is_err());

    let stats = mesh.get_stats(now_ms());
    assert_eq!(stats.observability.messages_total, 1);
    assert_eq!(stats.observability.messages_failed, 1);
}

#[test]
fn test_pipeline_budget_veto() {
    let mut mesh = AiMesh::new(AiMeshConfig::default(), now_ms()).unwrap();
    mesh.router.register_endpoint(endpoint("e", 1, 0, 100, 5), now_ns());
    mesh.router.set_budget("a", 100, i64::MAX);

    let mut msg = AiMessage::new("a".into(), b"m".to_vec(), 1000, i64::MAX, now_ns());
    msg.estimated_cost_tokens = 150;

    assert!(mesh.process_message(msg, now_ms(), now_secs()).is_err());
    assert_eq!(mesh.router.get_stats().total_decisions, 0);
    assert_eq!(mesh.router.get_remaining_budget("a"), 100);
}

#[test]
fn test_success_debits_budget() {
    let mut mesh = AiMesh::new(AiMeshConfig::default(), now_ms()).unwrap();
    mesh.router.register_endpoint(endpoint("backend", 10, 0, 100, 100), now_ns());
    mesh.router.set_budget("a", 1000, i64::MAX);

    let mut msg = AiMessage::new("a".into(), b"bill me".to_vec(), 1000, i64::MAX, now_ns());
    // Ten cost units per thousand tokens, five hundred tokens estimated.
    msg.estimated_cost_tokens = 500;

    let ack = mesh.process_message(msg, now_ms(), now_secs()).unwrap();
    assert!(ack.is_success());
    assert_eq!(ack.tokens_used, 5);
    assert_eq!(mesh.router.get_remaining_budget("a"), 995);
    assert_eq!(mesh.router.get_stats().total_decisions, 1);
}
