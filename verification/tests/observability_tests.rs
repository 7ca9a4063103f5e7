//! Counters, histograms, and the metrics exposition.

use aimesh::metrics::prometheus_metrics;
use aimesh::observability::Counter;
use aimesh::observability::Histogram;
use aimesh::observability::ObservabilityLayer;
use aimesh::routing::CostAwareRouter;
use aimesh::routing::RouterConfig;
use std::time::SystemTime;
use std::time::UNIX_EPOCH;

fn now_ms() -> i64 {
    SystemTime::now().duration_since(UNIX_EPOCH).unwrap().as_millis() as i64
}

#[test]
fn test_counter() {
    let mut counter = Counter::new();
    counter.inc();
    counter.add(5);
    assert_eq!(counter.get(), 6);
}

#[test]
fn test_histogram() {
    let mut hist = Histogram::new();
    for i in 1..=100u64 {
        hist.record(i);
    }

    let snapshot = hist.snapshot();
    assert_eq!(snapshot.count, 100);
    assert_eq!(snapshot.min, 1);
    assert_eq!(snapshot.max, 100);
    assert!(snapshot.p50 >= 50 && snapshot.p50 <= 51);
}

#[test]
fn mod_test_observability() {
    let mut obs = ObservabilityLayer::new(now_ms());
    obs.record_message("agent-1", true, 5, 100, 1);
    obs.record_message("agent-1", true, 3, 50, 1);

    let stats = obs.get_stats(now_ms());
    assert_eq!(stats.messages_total, 2);
    assert_eq!(stats.messages_success, 2);
    assert_eq!(stats.tokens_consumed, 150);
}

#[test]
fn integration_test_test_observability() {
    let mut obs = ObservabilityLayer::new(now_ms());
    obs.record_message("agent-1", true, 5, 100, 1);
    obs.record_message("agent-1", true, 3, 50, 1);
    obs.record_message("agent-2", false, 10, 0, 0);

    let stats = obs.get_stats(now_ms());
    assert_eq!(stats.messages_total, 3);
    assert_eq!(stats.messages_success, 2);
    assert_eq!(stats.messages_failed, 1);
    assert_eq!(stats.tokens_consumed, 150);
}

#[test]
fn test_agent_stats() {
    let mut obs = ObservabilityLayer::new(now_ms());
    obs.record_message("a", true, 1, 40, 0);
    obs.record_message("a", true, 1, 2, 0);
    let stats = obs.get_agent_stats("a");
    assert_eq!(stats.tokens_consumed, 42);
    assert_eq!(stats.messages_processed, 2);
    let empty = obs.get_agent_stats("nobody");
    assert_eq!(empty.tokens_consumed, 0);
    assert_eq!(empty.messages_processed, 0);
}

#[test]
fn test_histogram_unsorted_input() {
    let mut hist = Histogram::new();
    hist.record(30);
    hist.record(10);
    hist.record(20);
    let s = hist.snapshot();
    assert_eq!(s.min, 10);
    assert_eq!(s.max, 30);
    assert_eq!(s.sum, 60);
    assert_eq!(s.p50, 20);
}

#[test]
fn test_prometheus_metrics() {
    let obs = ObservabilityLayer::new(now_ms());
    let router = CostAwareRouter::new(RouterConfig::default());

    let metrics = prometheus_metrics(&obs.get_stats(now_ms()), &router.get_stats());
    assert!(metrics.contains("aimesh_messages_total"));
    assert!(metrics.contains("aimesh_tokens_consumed"));
    assert!(metrics.contains("aimesh_uptime_seconds"));
}

#[test]
fn test_prometheus_metrics_values() {
    let mut obs = ObservabilityLayer::new(now_ms());
    obs.record_message("a", true, 5, 7, 0);
    let router = CostAwareRouter::new(RouterConfig::default());
    let text = prometheus_metrics(&obs.get_stats(now_ms()), &router.get_stats());
    assert!(text.contains("aimesh_messages_total 1\n"));
    assert!(text.contains("aimesh_tokens_consumed 7\n"));
    assert!(text.contains("# TYPE aimesh_messages_total counter\n"));
}
