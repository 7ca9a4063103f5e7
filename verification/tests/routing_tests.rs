//! Endpoint scoring, selection order, budgets and health transitions.

use aimesh::protocol::AiMessage;
use aimesh::protocol::EndpointMetrics;
use aimesh::protocol::HealthStatus;
use aimesh::routing::CostAwareRouter;
use aimesh::routing::RouterConfig;
use aimesh::routing::RoutingError;
use std::time::SystemTime;
use std::time::UNIX_EPOCH;

fn now_ns() -> i64 {
    SystemTime::now().duration_since(UNIX_EPOCH).unwrap().as_nanos() as i64
}

fn create_test_endpoint(id: &str, cost: u64, load: u32, capacity: u32, latency: u32) -> EndpointMetrics {
    EndpointMetrics {
        endpoint_id: id.to_string(),
        capacity,
        current_load: load,
        cost_per_1k_tokens: cost,
        latency_p99_ms: latency,
        error_rate_ppm: 0,
        last_health_check: 0,
        health_status: HealthStatus::Healthy,
    }
}

#[test]
fn test_routing_selects_best_endpoint() {
    let mut router = CostAwareRouter::new(RouterConfig::default());

    router.register_endpoint(create_test_endpoint("expensive", 10, 10, 100, 5), now_ns());
    router.register_endpoint(create_test_endpoint("cheap", 1, 10, 100, 5), now_ns());
    router.register_endpoint(create_test_endpoint("fast", 5, 10, 100, 1), now_ns());

    let msg = AiMessage::new("test-agent".to_string(), b"test".to_vec(), 1000, i64::MAX, now_ns());

    let decision = router.route(&msg).unwrap();

    assert_eq!(decision.target_endpoint, "cheap");
}

#[test]
fn test_budget_enforcement() {
    let mut router = CostAwareRouter::new(RouterConfig::default());
    router.register_endpoint(create_test_endpoint("endpoint-1", 1, 0, 100, 5), now_ns());

    router.set_budget("limited-agent", 100, i64::MAX);

    let mut msg = AiMessage::new(
        "limited-agent".to_string(),
        b"test".to_vec(),
        100,
        i64::MAX,
        now_ns(),
    );
    msg.estimated_cost_tokens = 150;

    let result = router.route(&msg);
    assert!(matches!(result, Err(RoutingError::BudgetExceeded { .. })));
}

#[test]
fn test_fallback_endpoints() {
    let mut router = CostAwareRouter::new(RouterConfig::default());

    router.register_endpoint(create_test_endpoint("primary", 1, 0, 100, 5), now_ns());
    router.register_endpoint(create_test_endpoint("secondary", 2, 0, 100, 5), now_ns());
    router.register_endpoint(create_test_endpoint("tertiary", 3, 0, 100, 5), now_ns());

    let msg = AiMessage::new("test-agent".to_string(), b"test".to_vec(), 1000, i64::MAX, now_ns());

    let decision = router.route(&msg).unwrap();

    assert_eq!(decision.target_endpoint, "primary");
    assert_eq!(decision.fallback_endpoints.len(), 2);
}

#[test]
fn test_cheapest_wins_with_ordered_fallbacks() {
    let mut router = CostAwareRouter::new(RouterConfig::default());
    router.register_endpoint(create_test_endpoint("e1", 10, 10, 100, 5), now_ns());
    router.register_endpoint(create_test_endpoint("e2", 1, 10, 100, 5), now_ns());
    router.register_endpoint(create_test_endpoint("e3", 5, 10, 100, 1), now_ns());

    let msg = AiMessage::new("a".to_string(), b"t".to_vec(), 1000, i64::MAX, now_ns());
    let decision = router.route(&msg).unwrap();

    assert_eq!(decision.target_endpoint, "e2");
    assert_eq!(decision.fallback_endpoints, vec!["e3".to_string(), "e1".to_string()]);
}

#[test]
fn test_budget_veto_leaves_no_history() {
    let mut router = CostAwareRouter::new(RouterConfig::default());
    router.register_endpoint(create_test_endpoint("e", 1, 0, 100, 5), now_ns());
    router.set_budget("a", 100, i64::MAX);

    let mut msg = AiMessage::new("a".to_string(), b"m".to_vec(), 1000, i64::MAX, now_ns());
    msg.estimated_cost_tokens = 150;

    match router.route(&msg) {
        Err(RoutingError::BudgetExceeded { required, available, .. }) => {
            assert_eq!(required, 150);
            assert_eq!(available, 100);
        }
        other => panic!("expected BudgetExceeded, got {:?}", other),
    }
    assert_eq!(router.get_stats().total_decisions, 0);
}

#[test]
fn test_equal_scores_break_by_identifier() {
    let mut router = CostAwareRouter::new(RouterConfig::default());
    router.register_endpoint(create_test_endpoint("zeta", 3, 5, 50, 7), now_ns());
    router.register_endpoint(create_test_endpoint("alpha", 3, 5, 50, 7), now_ns());
    router.register_endpoint(create_test_endpoint("mid", 3, 5, 50, 7), now_ns());

    let msg = AiMessage::new("a".to_string(), b"m".to_vec(), 10, i64::MAX, now_ns());
    let decision = router.route(&msg).unwrap();
    assert_eq!(decision.target_endpoint, "alpha");
    assert_eq!(decision.fallback_endpoints, vec!["mid".to_string(), "zeta".to_string()]);
}

#[test]
fn test_no_healthy_endpoints() {
    let mut router = CostAwareRouter::new(RouterConfig::default());
    let mut m = create_test_endpoint("down", 1, 0, 100, 5);
    m.health_status = HealthStatus::Unhealthy;
    router.register_endpoint(m, now_ns());

    let msg = AiMessage::new("a".to_string(), b"m".to_vec(), 10, i64::MAX, now_ns());
    assert!(matches!(router.route(&msg), Err(RoutingError::NoHealthyEndpoints)));
}

#[test]
fn test_failure_threshold_marks_unhealthy() {
    let mut router = CostAwareRouter::new(RouterConfig::default());
    router.register_endpoint(create_test_endpoint("flaky", 1, 0, 100, 5), now_ns());

    router.record_endpoint_failure("flaky");
    router.record_endpoint_failure("flaky");
    router.record_endpoint_failure("flaky");

    let msg = AiMessage::new("a".to_string(), b"m".to_vec(), 10, i64::MAX, now_ns());
    assert!(matches!(router.route(&msg), Err(RoutingError::NoHealthyEndpoints)));

    router.record_endpoint_success("flaky", now_ns());
    assert_eq!(router.route(&msg).unwrap().target_endpoint, "flaky");
}

#[test]
fn test_budget_roundtrip() {
    let mut router = CostAwareRouter::new(RouterConfig::default());
    router.set_budget("a", 1000, i64::MAX);
    assert_eq!(router.consume_budget("a", 100).unwrap(), 900);
    assert_eq!(router.get_remaining_budget("a"), 900);
    router.reset_budget("a");
    assert_eq!(router.get_remaining_budget("a"), 1000);
}

#[test]
fn test_consume_without_budget_is_unbounded() {
    let mut router = CostAwareRouter::new(RouterConfig::default());
    assert_eq!(router.consume_budget("free", 12345).unwrap(), u64::MAX);
    assert_eq!(router.get_remaining_budget("free"), u64::MAX);
}

#[test]
fn test_update_and_remove_endpoint() {
    let mut router = CostAwareRouter::new(RouterConfig::default());
    router.register_endpoint(create_test_endpoint("e", 1, 0, 100, 5), now_ns());

    let better = create_test_endpoint("e", 2, 0, 100, 3);
    assert!(router.update_endpoint_metrics("e", better).is_ok());
    let listed = router.list_endpoints();
    assert_eq!(listed.len(), 1);
    assert_eq!(listed[0].cost_per_1k_tokens, 2);

    assert!(router.remove_endpoint("e"));
    assert!(!router.remove_endpoint("e"));
    assert_eq!(router.list_endpoints().len(), 0);
}

#[test]
fn test_degraded_endpoints() {
    let mut router = CostAwareRouter::new(RouterConfig::default());
    let mut degraded = create_test_endpoint("strained", 1, 95, 100, 5);
    degraded.error_rate_ppm = 200000;
    router.register_endpoint(degraded, now_ns());
    router.register_endpoint(create_test_endpoint("fine", 1, 1, 100, 5), now_ns());

    let ids = router.get_degraded_endpoints();
    assert_eq!(ids, vec!["strained".to_string()]);
}

#[test]
fn test_routing_is_pure() {
    let mut router = CostAwareRouter::new(RouterConfig::default());
    router.register_endpoint(create_test_endpoint("one", 2, 3, 10, 7), now_ns());
    router.register_endpoint(create_test_endpoint("two", 5, 1, 10, 2), now_ns());
    router.set_budget("a", 500, i64::MAX);

    let before: Vec<String> =
        router.list_endpoints().iter().map(|e| e.endpoint_id.clone()).collect();
    let budget_before = router.get_remaining_budget("a");

    let msg = AiMessage::new("a".to_string(), b"m".to_vec(), 10, i64::MAX, now_ns());
    router.route(&msg).unwrap();
    router.route(&msg).unwrap();

    let after: Vec<String> =
        router.list_endpoints().iter().map(|e| e.endpoint_id.clone()).collect();
    assert_eq!(before, after);
    assert_eq!(router.get_remaining_budget("a"), budget_before);
    assert_eq!(router.get_stats().total_decisions, 2);
    assert_eq!(router.get_stats().healthy_endpoints, 2);
}
