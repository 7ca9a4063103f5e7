//! Prometheus text exposition of the crate's counters and gauges, and the
//! health summary.
//!
//! The HTTP server that answers scrapes is an external collaborator; the
//! core renders the exposition text.

use vstd::prelude::*;

verus! {

use vstd::string::StringExecFns;
use crate::observability::ObservabilityStats;
use crate::routing::RouterStats;
use crate::text::dec_str;
use crate::text::u64_to_string;

/// Where and how the exposition is served.
#[derive(Clone, Debug)]
pub struct MetricsConfig {
    pub bind_addr: String,
    pub prometheus_enabled: bool,
    pub metrics_path: String,
    pub health_path: String,
}

impl Default for MetricsConfig {
    fn default() -> (r: Self)
        ensures
            r.bind_addr@ == "0.0.0.0:9090"@,
            r.prometheus_enabled,
            r.metrics_path@ == "/metrics"@,
            r.health_path@ == "/health"@,
    {
        MetricsConfig {
            bind_addr: String::from_str("0.0.0.0:9090"),
            prometheus_enabled: true,
            metrics_path: String::from_str("/metrics"),
            health_path: String::from_str("/health"),
        }
    }
}

/// The health summary a liveness probe reads.
#[derive(Clone, Debug)]
pub struct HealthStatus {
    pub status: String,
    pub uptime_secs: u64,
    pub messages_total: u64,
    pub endpoints_healthy: u64,
    pub endpoints_total: u64,
}

/// Build the health summary from the current counts.
pub fn health_check(healthy: bool, stats: &ObservabilityStats, router_stats: &RouterStats) -> (r:
    HealthStatus)
    ensures
        healthy ==> r.status@ == "healthy"@,
        !healthy ==> r.status@ == "unhealthy"@,
        r.uptime_secs == stats.uptime_secs,
        r.messages_total == stats.messages_total,
        r.endpoints_healthy == router_stats.healthy_endpoints,
        r.endpoints_total == router_stats.endpoints_count,
{
    HealthStatus {
        status: if healthy {
            String::from_str("healthy")
        } else {
            String::from_str("unhealthy")
        },
        uptime_secs: stats.uptime_secs,
        messages_total: stats.messages_total,
        endpoints_healthy: router_stats.healthy_endpoints as u64,
        endpoints_total: router_stats.endpoints_count as u64,
    }
}

/// One exposition block: help line, type line, and the value line.
pub open spec fn metric_block(
    name: Seq<char>,
    help: Seq<char>,
    kind: Seq<char>,
    value: nat,
) -> Seq<char> {
    "# HELP "@ + name + " "@ + help + "\n# TYPE "@ + name + " "@ + kind + "\n"@ + name + " "@
        + dec_str(value) + "\n"@
}

fn push_metric(out: &mut String, name: &str, help: &str, kind: &str, value: u64)
    ensures
        final(out)@ == old(out)@ + metric_block(name@, help@, kind@, value as nat),
{
    out.append("# HELP ");
    out.append(name);
    out.append(" ");
    out.append(help);
    out.append("\n# TYPE ");
    out.append(name);
    out.append(" ");
    out.append(kind);
    out.append("\n");
    out.append(name);
    out.append(" ");
    let v = u64_to_string(value);
    out.append(v.as_str());
    out.append("\n");
    proof {
        assert(out@ =~= old(out)@ + metric_block(name@, help@, kind@, value as nat));
    }
}

/// The whole exposition text, block by block.
pub open spec fn spec_prometheus_text(s: ObservabilityStats, r: RouterStats) -> Seq<char> {
    metric_block("aimesh_messages_total"@, "Total messages processed"@, "counter"@, s.messages_total as nat)
        + metric_block("aimesh_messages_success"@, "Successful messages"@, "counter"@, s.messages_success as nat)
        + metric_block("aimesh_messages_failed"@, "Failed messages"@, "counter"@, s.messages_failed as nat)
        + metric_block("aimesh_tokens_consumed"@, "Total tokens consumed"@, "counter"@, s.tokens_consumed as nat)
        + metric_block("aimesh_cost_cents_total"@, "Total cost in cents"@, "counter"@, s.total_cost_cents as nat)
        + metric_block("aimesh_latency_ms_p50"@, "P50 latency in milliseconds"@, "gauge"@, s.e2e_latency.p50 as nat)
        + metric_block("aimesh_latency_ms_p99"@, "P99 latency in milliseconds"@, "gauge"@, s.e2e_latency.p99 as nat)
        + metric_block("aimesh_latency_ms_p999"@, "P99.9 latency in milliseconds"@, "gauge"@, s.e2e_latency.p999 as nat)
        + metric_block("aimesh_routing_latency_us_p50"@, "Routing P50 latency in microseconds"@, "gauge"@, s.routing_latency.p50 as nat)
        + metric_block("aimesh_routing_latency_us_p99"@, "Routing P99 latency in microseconds"@, "gauge"@, s.routing_latency.p99 as nat)
        + metric_block("aimesh_routing_latency_us_p999"@, "Routing P99.9 latency in microseconds"@, "gauge"@, s.routing_latency.p999 as nat)
        + metric_block("aimesh_throughput_per_sec"@, "Messages per second"@, "gauge"@, s.throughput_per_sec as nat)
        + metric_block("aimesh_uptime_seconds"@, "Uptime in seconds"@, "counter"@, s.uptime_secs as nat)
        + metric_block("aimesh_endpoints_total"@, "Total registered endpoints"@, "gauge"@, r.endpoints_count as nat)
        + metric_block("aimesh_endpoints_healthy"@, "Healthy endpoints"@, "gauge"@, r.healthy_endpoints as nat)
        + metric_block("aimesh_routing_decisions_total"@, "Total routing decisions"@, "counter"@, r.total_decisions as nat)
        + metric_block("aimesh_agents_with_budget"@, "Agents with configured budget"@, "gauge"@, r.agents_with_budget as nat)
}

/// Render the Prometheus exposition of the given counts.
pub fn prometheus_metrics(stats: &ObservabilityStats, router_stats: &RouterStats) -> (r: String)
    ensures
        r@ == spec_prometheus_text(*stats, *router_stats),
{
    let mut out = String::new();
    push_metric(&mut out, "aimesh_messages_total", "Total messages processed", "counter", stats.messages_total);
    push_metric(&mut out, "aimesh_messages_success", "Successful messages", "counter", stats.messages_success);
    push_metric(&mut out, "aimesh_messages_failed", "Failed messages", "counter", stats.messages_failed);
    push_metric(&mut out, "aimesh_tokens_consumed", "Total tokens consumed", "counter", stats.tokens_consumed);
    push_metric(&mut out, "aimesh_cost_cents_total", "Total cost in cents", "counter", stats.total_cost_cents);
    push_metric(&mut out, "aimesh_latency_ms_p50", "P50 latency in milliseconds", "gauge", stats.e2e_latency.p50);
    push_metric(&mut out, "aimesh_latency_ms_p99", "P99 latency in milliseconds", "gauge", stats.e2e_latency.p99);
    push_metric(&mut out, "aimesh_latency_ms_p999", "P99.9 latency in milliseconds", "gauge", stats.e2e_latency.p999);
    push_metric(&mut out, "aimesh_routing_latency_us_p50", "Routing P50 latency in microseconds", "gauge", stats.routing_latency.p50);
    push_metric(&mut out, "aimesh_routing_latency_us_p99", "Routing P99 latency in microseconds", "gauge", stats.routing_latency.p99);
    push_metric(&mut out, "aimesh_routing_latency_us_p999", "Routing P99.9 latency in microseconds", "gauge", stats.routing_latency.p999);
    push_metric(&mut out, "aimesh_throughput_per_sec", "Messages per second", "gauge", stats.throughput_per_sec);
    push_metric(&mut out, "aimesh_uptime_seconds", "Uptime in seconds", "counter", stats.uptime_secs);
    push_metric(&mut out, "aimesh_endpoints_total", "Total registered endpoints", "gauge", router_stats.endpoints_count as u64);
    push_metric(&mut out, "aimesh_endpoints_healthy", "Healthy endpoints", "gauge", router_stats.healthy_endpoints as u64);
    push_metric(&mut out, "aimesh_routing_decisions_total", "Total routing decisions", "counter", router_stats.total_decisions as u64);
    push_metric(&mut out, "aimesh_agents_with_budget", "Agents with configured budget", "gauge", router_stats.agents_with_budget as u64);
    proof {
        assert(out@ =~= spec_prometheus_text(*stats, *router_stats));
    }
    out
}

} // verus!
