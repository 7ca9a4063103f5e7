//! Cost-aware message routing core for a fleet of AI model endpoints.
//!
//! The crate routes requests from agents to backend model endpoints under
//! cost, load and latency constraints, enforces per-agent token budgets and
//! per-tenant quotas, deduplicates repeated requests through a fingerprint
//! cache, schedules queued requests by priority and deadline, and admits
//! traffic through composed rate limiters.

use vstd::prelude::*;

pub mod codec;
pub mod dedup;
pub mod keymap;
pub mod metrics;
pub mod observability;
pub mod priority;
pub mod protocol;
pub mod ratelimit;
pub mod routing;
pub mod storage;
pub mod strutil;
pub mod tenant;
pub mod text;
pub mod transport;

verus! {

use vstd::string::StringExecFns;
use crate::dedup::SemanticDeduplicator;
use crate::dedup::spec_check;
use crate::dedup::spec_fingerprint;
use crate::observability::ObservabilityLayer;
use crate::observability::ObservabilityStats;
use crate::protocol::AckStatus;
use crate::protocol::AcknowledgmentMessage;
use crate::protocol::AiMessage;
use crate::protocol::ProtocolError;
use crate::protocol::spec_message_valid;
use crate::ratelimit::RateLimitConfig;
use crate::ratelimit::RateLimitError;
use crate::ratelimit::RateLimiter;
use crate::ratelimit::spec_refilled_tokens;
use crate::ratelimit::spec_window_limit;
use crate::routing::CostAwareRouter;
use crate::routing::RouterConfig;
use crate::routing::RouterStats;
use crate::routing::RoutingError;
use crate::routing::spec_estimated_cost;
use crate::storage::StorageConfig;
use crate::storage::StorageError;

/// Faults the pipeline reports, by subsystem.
#[derive(Debug)]
pub enum AiMeshError {
    Protocol(ProtocolError),
    Routing(RoutingError),
    Storage(StorageError),
    Transport(String),
    RateLimit(RateLimitError),
    Config(String),
}

/// Configuration of the whole pipeline.
#[derive(Debug)]
pub struct AiMeshConfig {
    pub bind_addr: String,
    pub router: RouterConfig,
    pub storage: StorageConfig,
    pub rate_limit: RateLimitConfig,
    pub enable_dedup: bool,
    pub dedup_ttl_secs: u64,
    pub enable_rate_limit: bool,
}

impl AiMeshConfig {
    pub open spec fn wf(&self) -> bool {
        self.router.wf() && self.rate_limit.wf()
    }
}

impl Default for AiMeshConfig {
    fn default() -> (r: Self)
        ensures
            r.bind_addr@ == "0.0.0.0:8080"@,
            r.enable_dedup,
            r.dedup_ttl_secs == 3600,
            r.enable_rate_limit,
            r.wf(),
    {
        AiMeshConfig {
            bind_addr: String::from_str("0.0.0.0:8080"),
            router: RouterConfig::default(),
            storage: StorageConfig::default(),
            rate_limit: RateLimitConfig::default(),
            enable_dedup: true,
            dedup_ttl_secs: 3600,
            enable_rate_limit: true,
        }
    }
}

/// Whether the limiter would admit one request under `key` at `now_ms`.
pub open spec fn rate_admits(rl: RateLimiter, key: Seq<char>, now_ms: i64) -> bool {
    &&& 1 <= spec_refilled_tokens(rl.spec_global(), now_ms)
    &&& 1 <= rl.spec_bucket_avail(key, now_ms)
    &&& rl.spec_window_used(key, now_ms) + 1 <= spec_window_limit(rl.spec_config())
}

/// The pipeline: validator, rate limiter, deduplication cache, router and
/// counters, composed over one message at a time.
pub struct AiMesh {
    pub config: AiMeshConfig,
    pub router: CostAwareRouter,
    pub dedup: SemanticDeduplicator,
    pub observability: ObservabilityLayer,
    pub rate_limiter: RateLimiter,
}

/// System-wide statistics.
#[derive(Clone, Copy, Debug)]
pub struct SystemStats {
    pub observability: ObservabilityStats,
    pub router: RouterStats,
}

impl AiMesh {
    pub open spec fn wf(&self) -> bool {
        &&& self.router.wf()
        &&& self.dedup.wf()
        &&& self.observability.wf()
        &&& self.rate_limiter.wf()
    }

    /// Assemble the pipeline from its configuration; `now_ms` stamps the
    /// start of the uptime clock and of the limiter buckets.
    pub fn new(config: AiMeshConfig, now_ms: i64) -> (r: Result<Self, AiMeshError>)
        requires
            config.wf(),
        ensures
            r matches Ok(m) && {
                &&& m.wf()
                &&& m.config.enable_dedup == config.enable_dedup
                &&& m.config.enable_rate_limit == config.enable_rate_limit
                &&& m.dedup.spec_ttl_secs() == config.dedup_ttl_secs
                &&& m.router.history().len() == 0
                &&& m.observability.messages_total.spec_value() == 0
                &&& forall|k: Seq<char>| !m.router.endpoints_map().contains_key(k)
                &&& forall|k: Seq<char>| !m.router.budgets_map().contains_key(k)
            },
    {
        let router = CostAwareRouter::new(config.router);
        let dedup = SemanticDeduplicator::new(config.dedup_ttl_secs);
        let observability = ObservabilityLayer::new(now_ms);
        let rate_limiter = RateLimiter::new(config.rate_limit, now_ms);
        Ok(AiMesh { config, router, dedup, observability, rate_limiter })
    }

    /// Run one message through the pipeline: validate, admit, consult the
    /// deduplication cache, route, record the result for later duplicates,
    /// debit the budget, and count the outcome. Dispatch itself is an
    /// external collaborator, so the result carried here is empty.
    /// Counters update on every path.
    pub fn process_message(&mut self, message: AiMessage, now_ms: i64, now_secs: i64) -> (r:
        Result<AcknowledgmentMessage, AiMeshError>)
        requires
            old(self).wf(),
        ensures
            final(self).wf(),
            ({
                let valid = spec_message_valid(message@, now_ms);
                let rate_ok = !old(self).config.enable_rate_limit || rate_admits(
                    old(self).rate_limiter,
                    message.agent_id@,
                    now_ms,
                );
                let fp = spec_fingerprint(message.payload@, message.dedup_context@);
                let hit = if old(self).config.enable_dedup {
                    spec_check(
                        old(self).dedup.as_model(),
                        fp,
                        now_secs,
                        old(self).dedup.spec_ttl_secs(),
                    )
                } else {
                    Option::<Seq<u8>>::None
                };
                let over = old(self).router.budgets_map().contains_key(message.agent_id@) && old(self).router.budgets_map().val_of(message.agent_id@).remaining_tokens
                    < message.estimated_cost_tokens;
                let any_healthy = exists|k: Seq<char>| #[trigger] old(self).router.healthy_key(k);
                let chosen_cost = spec_estimated_cost(
                    old(self).router.endpoints_map().val_of(
                        crate::routing::spec_chosen_key(old(self).router),
                    ).metrics.cost_per_1k_tokens,
                    message.estimated_cost_tokens,
                );
                let covered = !old(self).router.budgets_map().contains_key(message.agent_id@)
                    || chosen_cost <= old(self).router.budgets_map().val_of(
                    message.agent_id@,
                ).remaining_tokens;
                &&& (!valid ==> (r matches Err(e) && e matches AiMeshError::Protocol(_) && final(self).router == old(self).router && final(self).dedup == old(self).dedup && final(self).rate_limiter == old(self).rate_limiter))
                &&& (valid && !rate_ok ==> (r matches Err(e) && e matches AiMeshError::RateLimit(_)
                    && final(self).router == old(self).router && final(self).dedup == old(
                    self,
                ).dedup && final(self).rate_limiter.spec_global() == old(
                    self,
                ).rate_limiter.spec_global()))
                &&& (valid && rate_ok ==> (hit matches Some(bytes) ==> (r matches Ok(ack) && {
                    &&& ack.status == AckStatus::AckProcessed
                    &&& ack.tokens_used == 0
                    &&& ack.result@ == bytes
                    &&& ack.original_message_id@ == message.message_id@
                    &&& final(self).router == old(self).router
                    &&& final(self).dedup.as_model() == old(self).dedup.as_model()
                })))
                &&& (valid && rate_ok && hit is None && over ==> (r matches Err(e) && e matches
                AiMeshError::Routing(re) && re matches RoutingError::BudgetExceeded { .. }))
                &&& (valid && rate_ok && hit is None && !over && !any_healthy ==> (r matches Err(e)
                    && e matches AiMeshError::Routing(re) && re
                    matches RoutingError::NoHealthyEndpoints))
                &&& (valid && rate_ok && hit is None && (over || !any_healthy) ==> final(self).router.history() == old(self).router.history() && (old(self).config.enable_dedup
                    ==> !final(self).dedup.as_model().dom().contains(fp)) && (!old(self).config.enable_dedup ==> final(self).dedup == old(self).dedup))
                &&& (valid && rate_ok && hit is None && !over && any_healthy ==> {
                    &&& (covered ==> r is Ok)
                    &&& (r matches Ok(ack) ==> {
                        &&& ack.status == AckStatus::AckProcessed
                        &&& ack.original_message_id@ == message.message_id@
                        &&& ack.tokens_used == chosen_cost
                        &&& (old(self).router.budgets_map().contains_key(message.agent_id@)
                            ==> final(self).router.budgets_map().val_of(
                            message.agent_id@,
                        ).remaining_tokens == old(self).router.budgets_map().val_of(
                            message.agent_id@,
                        ).remaining_tokens - ack.tokens_used)
                        &&& (!old(self).router.budgets_map().contains_key(message.agent_id@)
                            ==> final(self).router.budgets_map() == old(self).router.budgets_map())
                        &&& (old(self).config.enable_dedup ==> final(self).dedup.as_model().dom().contains(fp) && final(self).dedup.as_model()[fp] == (
                        now_secs, ack.result@))
                    })
                    &&& (r matches Err(e) ==> (e matches AiMeshError::Routing(re) && re matches
                    RoutingError::BudgetExceeded { .. } && !covered))
                    &&& (old(self).router.history().len() + 1 <= crate::routing::HISTORY_CAP
                        ==> final(self).router.history().len() == old(self).router.history().len()
                        + 1 && final(self).router.history() == old(self).router.history().push(
                        final(self).router.history().last(),
                    ))
                    &&& (old(self).router.history().len() + 1 > crate::routing::HISTORY_CAP
                        ==> final(self).router.history() == old(self).router.history().push(
                        final(self).router.history().last(),
                    ).skip(crate::routing::HISTORY_DROP as int))
                })
                &&& (r is Err ==> final(self).router.budgets_map() == old(
                    self,
                ).router.budgets_map() && final(self).router.endpoints_map() == old(
                    self,
                ).router.endpoints_map())
                &&& (final(self).observability.messages_total.spec_value() == (if old(self).observability.messages_total.spec_value() == u64::MAX {
                    u64::MAX as int
                } else {
                    old(self).observability.messages_total.spec_value() + 1
                }))
            }),
    {
        let ghost fp = spec_fingerprint(message.payload@, message.dedup_context@);
        match message.validate(now_ms) {
            Ok(()) => {},
            Err(e) => {
                self.observability.record_message(message.agent_id.as_str(), false, 0, 0, 0);
                return Err(AiMeshError::Protocol(e));
            },
        }
        if self.config.enable_rate_limit {
            match self.rate_limiter.acquire(message.agent_id.as_str(), now_ms) {
                Ok(()) => {},
                Err(e) => {
                    self.observability.record_message(message.agent_id.as_str(), false, 0, 0, 0);
                    return Err(AiMeshError::RateLimit(e));
                },
            }
        }
        if self.config.enable_dedup {
            match self.dedup.check_duplicate(&message, now_secs) {
                Some(cached) => {
                    self.observability.record_message(message.agent_id.as_str(), true, 0, 0, 0);
                    return Ok(
                        AcknowledgmentMessage::success(message.message_id.clone(), 0, 0, cached),
                    );
                },
                None => {},
            }
        }
        let decision = match self.router.route(&message) {
            Ok(d) => d,
            Err(e) => {
                self.observability.record_message(message.agent_id.as_str(), false, 0, 0, 0);
                return Err(AiMeshError::Routing(e));
            },
        };
        let result: Vec<u8> = Vec::new();
        if self.config.enable_dedup {
            let stored = vstd::slice::slice_to_vec(result.as_slice());
            self.dedup.record(&message, stored, now_secs);
        }
        match self.router.consume_budget(message.agent_id.as_str(), decision.estimated_cost) {
            Ok(_) => {},
            Err(e) => {
                self.observability.record_message(message.agent_id.as_str(), false, 0, 0, 0);
                return Err(AiMeshError::Routing(e));
            },
        }
        self.observability.record_message(
            message.agent_id.as_str(),
            true,
            0,
            decision.estimated_cost,
            decision.estimated_cost / 1000,
        );
        proof {
            assert(old(self).router.healthy_key(decision.target_endpoint@));
        }
        Ok(
            AcknowledgmentMessage::success(
                message.message_id.clone(),
                decision.estimated_cost,
                0,
                result,
            ),
        )
    }

    /// A snapshot of the pipeline's counters at `now_ms`.
    pub fn get_stats(&self, now_ms: i64) -> (r: SystemStats)
        requires
            self.wf(),
        ensures
            crate::observability::spec_stats_ok(self.observability, now_ms, r.observability),
            r.router.total_decisions == self.router.history().len(),
            r.router.endpoints_count == self.router.endpoints_map().num_entries(),
            r.router.healthy_endpoints == crate::routing::count_healthy(
                self.router.endpoints_map().entries_seq(),
            ),
            r.router.agents_with_budget == self.router.budgets_map().num_entries(),
    {
        SystemStats {
            observability: self.observability.get_stats(now_ms),
            router: self.router.get_stats(),
        }
    }
}

} // verus!
