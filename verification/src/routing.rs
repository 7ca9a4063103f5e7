//! Cost-aware routing: endpoint registry, budget book, scoring and
//! selection.
//!
//! Scores are fixed-point: weights are given in thousandths of one (the
//! three weights sum to 1000), and the score of an endpoint is the weighted
//! sum of its cost per thousand tokens, its load share and its tail latency,
//! scaled by a constant factor so that no fraction is lost. Lower scores are
//! better; ties fall to the endpoint whose identifier orders first.

use vstd::prelude::*;

verus! {

use vstd::string::StringExecFns;
use crate::keymap::KeyMap;
use crate::protocol::AiMessage;
use crate::protocol::BudgetInfo;
use crate::protocol::EndpointMetrics;
use crate::protocol::HealthStatus;
use crate::protocol::RoutingDecision;
use crate::strutil::clone_string_vec;
use crate::strutil::lemma_bytes_lex_total;
use crate::strutil::lemma_encode_injective;
use crate::strutil::str_lt;
use crate::strutil::str_lt_exec;

/// Faults raised while routing.
#[derive(Debug)]
pub enum RoutingError {
    NoHealthyEndpoints,
    BudgetExceeded { agent_id: String, required: u64, available: u64 },
    EndpointNotFound(String),
    RateLimitExceeded(String),
}

/// Scoring weights in thousandths of one; the three sum to 1000.
#[derive(Clone, Copy, Debug)]
pub struct ScoringWeights {
    pub cost_weight: u64,
    pub load_weight: u64,
    pub latency_weight: u64,
}

impl ScoringWeights {
    pub open spec fn wf(&self) -> bool {
        self.cost_weight + self.load_weight + self.latency_weight == 1000
    }
}

impl Default for ScoringWeights {
    /// Cost 0.4, load 0.3, latency 0.3.
    fn default() -> (r: Self)
        ensures
            r.cost_weight == 400,
            r.load_weight == 300,
            r.latency_weight == 300,
    {
        ScoringWeights { cost_weight: 400, load_weight: 300, latency_weight: 300 }
    }
}

/// Configuration of the routing engine.
#[derive(Clone, Copy, Debug)]
pub struct RouterConfig {
    pub weights: ScoringWeights,
    pub health_check_interval_secs: u64,
    pub max_retries: u32,
    pub unhealthy_threshold: u32,
}

impl RouterConfig {
    pub open spec fn wf(&self) -> bool {
        self.weights.wf()
    }
}

impl Default for RouterConfig {
    fn default() -> (r: Self)
        ensures
            r.weights.cost_weight == 400,
            r.weights.load_weight == 300,
            r.weights.latency_weight == 300,
            r.health_check_interval_secs == 5,
            r.max_retries == 3,
            r.unhealthy_threshold == 3,
            r.wf(),
    {
        RouterConfig {
            weights: ScoringWeights::default(),
            health_check_interval_secs: 5,
            max_retries: 3,
            unhealthy_threshold: 3,
        }
    }
}

/// An endpoint as the router tracks it.
#[derive(Clone, Debug)]
pub struct Endpoint {
    pub metrics: EndpointMetrics,
    pub consecutive_failures: u32,
    pub last_success: i64,
}

impl Endpoint {
    /// Wrap freshly reported metrics; `now_ns` stamps the last success.
    pub fn new(metrics: EndpointMetrics, now_ns: i64) -> (r: Self)
        ensures
            r.metrics == metrics,
            r.consecutive_failures == 0,
            r.last_success == now_ns,
    {
        Endpoint { metrics, consecutive_failures: 0, last_success: now_ns }
    }

    pub open spec fn spec_is_healthy(&self) -> bool {
        self.metrics.health_status == HealthStatus::Healthy
    }

    pub fn is_healthy(&self) -> (r: bool)
        ensures
            r == self.spec_is_healthy(),
    {
        self.metrics.health_status == HealthStatus::Healthy
    }

    /// Load share in thousandths; an endpoint without capacity counts as
    /// fully loaded.
    pub fn load_permille(&self) -> (r: u64)
        ensures
            r == spec_load_permille(self.metrics.current_load, self.metrics.capacity),
    {
        if self.metrics.capacity == 0 {
            1000
        } else {
            (self.metrics.current_load as u64) * 1000 / (self.metrics.capacity as u64)
        }
    }
}

pub open spec fn spec_load_permille(load: u32, capacity: u32) -> int {
    if capacity == 0 {
        1000
    } else {
        load * 1000 / capacity as int
    }
}

/// The scaled score of an endpoint: one million times the weighted sum of
/// cost per thousand tokens, load share times one hundred, and latency in
/// milliseconds.
pub open spec fn spec_score(w: ScoringWeights, m: EndpointMetrics) -> int {
    w.cost_weight * m.cost_per_1k_tokens * 1000 + w.load_weight * spec_load_permille(
        m.current_load,
        m.capacity,
    ) * 100 + w.latency_weight * m.latency_p99_ms * 1000
}

/// Strict selection order: lower score first, ties by identifier.
pub open spec fn spec_precedes(w: ScoringWeights, a: EndpointMetrics, b: EndpointMetrics) -> bool {
    spec_score(w, a) < spec_score(w, b) || (spec_score(w, a) == spec_score(w, b) && str_lt(
        a.endpoint_id@,
        b.endpoint_id@,
    ))
}

/// Two endpoints with different identifiers are ordered one way or the
/// other.
pub proof fn lemma_precedes_total(w: ScoringWeights, a: EndpointMetrics, b: EndpointMetrics)
    requires
        a.endpoint_id@ != b.endpoint_id@,
    ensures
        spec_precedes(w, a, b) || spec_precedes(w, b, a),
{
    if spec_score(w, a) == spec_score(w, b) {
        lemma_encode_injective(a.endpoint_id@, b.endpoint_id@);
        lemma_bytes_lex_total(
            vstd::utf8::encode_utf8(a.endpoint_id@),
            vstd::utf8::encode_utf8(b.endpoint_id@),
        );
    }
}

/// The cost charged for a message routed to an endpoint: the endpoint's
/// cost per thousand tokens times the estimated tokens, over one thousand,
/// saturating at the largest representable amount.
pub open spec fn spec_estimated_cost(cost_per_1k: u64, estimated_tokens: u64) -> u64 {
    if cost_per_1k * estimated_tokens / 1000 > u64::MAX {
        u64::MAX
    } else {
        (cost_per_1k * estimated_tokens / 1000) as u64
    }
}

/// How one consumption request changes a remaining balance: it is granted
/// exactly when it fits.
pub open spec fn spec_consume_step(remaining: u64, tokens: u64) -> (u64, bool) {
    if tokens <= remaining {
        ((remaining - tokens) as u64, true)
    } else {
        (remaining, false)
    }
}

/// The balance left after a sequence of consumption requests.
pub open spec fn spec_remaining_after(remaining: u64, reqs: Seq<u64>) -> u64
    decreases reqs.len(),
{
    if reqs.len() == 0 {
        remaining
    } else {
        spec_remaining_after(spec_consume_step(remaining, reqs[0]).0, reqs.drop_first())
    }
}

/// The total of the requests that were granted.
pub open spec fn spec_accepted_sum(remaining: u64, reqs: Seq<u64>) -> int
    decreases reqs.len(),
{
    if reqs.len() == 0 {
        0
    } else {
        let step = spec_consume_step(remaining, reqs[0]);
        (if step.1 {
            reqs[0] as int
        } else {
            0
        }) + spec_accepted_sum(step.0, reqs.drop_first())
    }
}

/// Budget conservation: after any sequence of consumption requests, the
/// remaining balance is the initial balance minus the sum of the granted
/// requests, and that sum never exceeds the initial balance — so the
/// balance never goes below zero.
pub proof fn lemma_budget_conservation(initial: u64, reqs: Seq<u64>)
    ensures
        spec_remaining_after(initial, reqs) == initial - spec_accepted_sum(initial, reqs),
        0 <= spec_accepted_sum(initial, reqs) <= initial,
    decreases reqs.len(),
{
    if reqs.len() > 0 {
        let step = spec_consume_step(initial, reqs[0]);
        lemma_budget_conservation(step.0, reqs.drop_first());
    }
}

/// The cost-aware router: endpoint registry, per-agent budget book, and a
/// bounded history of decisions.
pub struct CostAwareRouter {
    endpoints: KeyMap<Endpoint>,
    budgets: KeyMap<BudgetInfo>,
    routing_history: Vec<RoutingDecision>,
    config: RouterConfig,
}

/// Cap of the decision history ring.
pub const HISTORY_CAP: usize = 10000;

/// How many of the oldest entries leave when the ring overflows.
pub const HISTORY_DROP: usize = 1000;

impl CostAwareRouter {
    pub closed spec fn endpoints_map(&self) -> KeyMap<Endpoint> {
        self.endpoints
    }

    pub closed spec fn budgets_map(&self) -> KeyMap<BudgetInfo> {
        self.budgets
    }

    pub closed spec fn history(&self) -> Seq<RoutingDecision> {
        self.routing_history@
    }

    pub closed spec fn spec_config(&self) -> RouterConfig {
        self.config
    }

    /// Registry and budget book are maps whose entries carry their own key,
    /// and the weights are well-formed.
    pub open spec fn wf(&self) -> bool {
        &&& self.endpoints_map().wf()
        &&& self.budgets_map().wf()
        &&& self.spec_config().wf()
        &&& forall|i: int|
            0 <= i < self.endpoints_map().entries_seq().len()
                ==> #[trigger] self.endpoints_map().entries_seq()[i].1.metrics.endpoint_id@
                == self.endpoints_map().entries_seq()[i].0
        &&& forall|i: int|
            0 <= i < self.budgets_map().entries_seq().len()
                ==> #[trigger] self.budgets_map().entries_seq()[i].1.agent_id@
                == self.budgets_map().entries_seq()[i].0
        &&& self.history().len() <= HISTORY_CAP
    }

    /// A key that names a healthy endpoint of the registry.
    pub open spec fn healthy_key(&self, k: Seq<char>) -> bool {
        self.endpoints_map().contains_key(k) && self.endpoints_map().val_of(k).spec_is_healthy()
    }

    pub fn new(config: RouterConfig) -> (r: Self)
        requires
            config.wf(),
        ensures
            r.wf(),
            r.spec_config() == config,
            r.endpoints_map().num_entries() == 0,
            r.budgets_map().num_entries() == 0,
            r.history().len() == 0,
            forall|k: Seq<char>| !r.endpoints_map().contains_key(k),
            forall|k: Seq<char>| !r.budgets_map().contains_key(k),
    {
        CostAwareRouter {
            endpoints: KeyMap::new(),
            budgets: KeyMap::new(),
            routing_history: Vec::new(),
            config,
        }
    }

    /// Add an endpoint, or replace the one already registered under the
    /// same identifier.
    pub fn register_endpoint(&mut self, metrics: EndpointMetrics, now_ns: i64)
        requires
            old(self).wf(),
        ensures
            final(self).wf(),
            final(self).endpoints_map().contains_key(metrics.endpoint_id@),
            final(self).endpoints_map().val_of(metrics.endpoint_id@).metrics == metrics,
            final(self).endpoints_map().val_of(metrics.endpoint_id@).consecutive_failures == 0,
            forall|k: Seq<char>|
                k != metrics.endpoint_id@ ==> #[trigger] final(self).endpoints_map().contains_key(k)
                    == old(self).endpoints_map().contains_key(k),
            forall|k: Seq<char>|
                k != metrics.endpoint_id@ && old(self).endpoints_map().contains_key(k)
                    ==> #[trigger] final(self).endpoints_map().val_of(k) == old(
                    self,
                ).endpoints_map().val_of(k),
            final(self).budgets_map() == old(self).budgets_map(),
            final(self).history() == old(self).history(),
            final(self).spec_config() == old(self).spec_config(),
    {
        let key = metrics.endpoint_id.clone();
        let ep = Endpoint::new(metrics, now_ns);
        self.endpoints.insert(key, ep);
    }

    /// Replace the reported metrics of a registered endpoint; failure
    /// bookkeeping is kept. Unknown identifiers are reported.
    pub fn update_endpoint_metrics(&mut self, endpoint_id: &str, metrics: EndpointMetrics) -> (r:
        Result<(), RoutingError>)
        requires
            old(self).wf(),
            metrics.endpoint_id@ == endpoint_id@,
        ensures
            final(self).wf(),
            r is Ok <==> old(self).endpoints_map().contains_key(endpoint_id@),
            r is Err ==> (r matches Err(e) && e matches RoutingError::EndpointNotFound(_) && *final(self) == *old(self)),
            old(self).endpoints_map().contains_key(endpoint_id@) ==> {
                &&& final(self).endpoints_map().contains_key(endpoint_id@)
                &&& final(self).endpoints_map().val_of(endpoint_id@).metrics == metrics
                &&& final(self).endpoints_map().val_of(endpoint_id@).consecutive_failures == old(
                    self,
                ).endpoints_map().val_of(endpoint_id@).consecutive_failures
                &&& final(self).endpoints_map().val_of(endpoint_id@).last_success == old(
                    self,
                ).endpoints_map().val_of(endpoint_id@).last_success
            },
            forall|k: Seq<char>|
                k != endpoint_id@ ==> #[trigger] final(self).endpoints_map().contains_key(k) == old(
                    self,
                ).endpoints_map().contains_key(k),
            forall|k: Seq<char>|
                k != endpoint_id@ && old(self).endpoints_map().contains_key(k) ==> #[trigger] final(self).endpoints_map().val_of(k) == old(self).endpoints_map().val_of(k),
            final(self).budgets_map() == old(self).budgets_map(),
            final(self).history() == old(self).history(),
            final(self).spec_config() == old(self).spec_config(),
    {
        match self.endpoints.remove(endpoint_id) {
            Some(mut ep) => {
                ep.metrics = metrics;
                self.endpoints.insert(String::from_str(endpoint_id), ep);
                Ok(())
            },
            None => Err(RoutingError::EndpointNotFound(String::from_str(endpoint_id))),
        }
    }

    /// Note a failure of an endpoint; at the configured threshold the
    /// endpoint becomes unhealthy. Unknown identifiers are ignored.
    pub fn record_endpoint_failure(&mut self, endpoint_id: &str)
        requires
            old(self).wf(),
        ensures
            final(self).wf(),
            !old(self).endpoints_map().contains_key(endpoint_id@) ==> *final(self) == *old(self),
            old(self).endpoints_map().contains_key(endpoint_id@) ==> {
                let before = old(self).endpoints_map().val_of(endpoint_id@);
                let after = final(self).endpoints_map().val_of(endpoint_id@);
                &&& final(self).endpoints_map().contains_key(endpoint_id@)
                &&& after.consecutive_failures == (if before.consecutive_failures == u32::MAX {
                    u32::MAX as int
                } else {
                    before.consecutive_failures + 1
                })
                &&& after.metrics.health_status == (if after.consecutive_failures >= old(
                    self,
                ).spec_config().unhealthy_threshold {
                    HealthStatus::Unhealthy
                } else {
                    before.metrics.health_status
                })
                &&& after.metrics.endpoint_id == before.metrics.endpoint_id
                &&& after.metrics.capacity == before.metrics.capacity
                &&& after.metrics.current_load == before.metrics.current_load
                &&& after.metrics.cost_per_1k_tokens == before.metrics.cost_per_1k_tokens
                &&& after.metrics.latency_p99_ms == before.metrics.latency_p99_ms
                &&& after.metrics.error_rate_ppm == before.metrics.error_rate_ppm
                &&& after.metrics.last_health_check == before.metrics.last_health_check
                &&& after.last_success == before.last_success
            },
            forall|k: Seq<char>|
                k != endpoint_id@ ==> #[trigger] final(self).endpoints_map().contains_key(k) == old(
                    self,
                ).endpoints_map().contains_key(k),
            forall|k: Seq<char>|
                k != endpoint_id@ && old(self).endpoints_map().contains_key(k) ==> #[trigger] final(self).endpoints_map().val_of(k) == old(self).endpoints_map().val_of(k),
            final(self).budgets_map() == old(self).budgets_map(),
            final(self).history() == old(self).history(),
            final(self).spec_config() == old(self).spec_config(),
    {
        match self.endpoints.remove(endpoint_id) {
            Some(mut ep) => {
                if ep.consecutive_failures < u32::MAX {
                    ep.consecutive_failures = ep.consecutive_failures + 1;
                }
                if ep.consecutive_failures >= self.config.unhealthy_threshold {
                    ep.metrics.health_status = HealthStatus::Unhealthy;
                }
                self.endpoints.insert(String::from_str(endpoint_id), ep);
            },
            None => {},
        }
    }

    /// Note a success: failures reset, the endpoint is healthy again, and
    /// `now_ns` stamps the success. Unknown identifiers are ignored.
    pub fn record_endpoint_success(&mut self, endpoint_id: &str, now_ns: i64)
        requires
            old(self).wf(),
        ensures
            final(self).wf(),
            !old(self).endpoints_map().contains_key(endpoint_id@) ==> *final(self) == *old(self),
            old(self).endpoints_map().contains_key(endpoint_id@) ==> {
                let before = old(self).endpoints_map().val_of(endpoint_id@);
                let after = final(self).endpoints_map().val_of(endpoint_id@);
                &&& final(self).endpoints_map().contains_key(endpoint_id@)
                &&& after.consecutive_failures == 0
                &&& after.last_success == now_ns
                &&& after.metrics.health_status == HealthStatus::Healthy
                &&& after.metrics.endpoint_id == before.metrics.endpoint_id
                &&& after.metrics.capacity == before.metrics.capacity
                &&& after.metrics.current_load == before.metrics.current_load
                &&& after.metrics.cost_per_1k_tokens == before.metrics.cost_per_1k_tokens
                &&& after.metrics.latency_p99_ms == before.metrics.latency_p99_ms
                &&& after.metrics.error_rate_ppm == before.metrics.error_rate_ppm
                &&& after.metrics.last_health_check == before.metrics.last_health_check
            },
            forall|k: Seq<char>|
                k != endpoint_id@ ==> #[trigger] final(self).endpoints_map().contains_key(k) == old(
                    self,
                ).endpoints_map().contains_key(k),
            forall|k: Seq<char>|
                k != endpoint_id@ && old(self).endpoints_map().contains_key(k) ==> #[trigger] final(self).endpoints_map().val_of(k) == old(self).endpoints_map().val_of(k),
            final(self).budgets_map() == old(self).budgets_map(),
            final(self).history() == old(self).history(),
            final(self).spec_config() == old(self).spec_config(),
    {
        match self.endpoints.remove(endpoint_id) {
            Some(mut ep) => {
                ep.consecutive_failures = 0;
                ep.last_success = now_ns;
                ep.metrics.health_status = HealthStatus::Healthy;
                self.endpoints.insert(String::from_str(endpoint_id), ep);
            },
            None => {},
        }
    }

    /// Drop an endpoint; reports whether one was registered.
    pub fn remove_endpoint(&mut self, endpoint_id: &str) -> (r: bool)
        requires
            old(self).wf(),
        ensures
            final(self).wf(),
            r == old(self).endpoints_map().contains_key(endpoint_id@),
            !final(self).endpoints_map().contains_key(endpoint_id@),
            forall|k: Seq<char>|
                k != endpoint_id@ ==> #[trigger] final(self).endpoints_map().contains_key(k) == old(
                    self,
                ).endpoints_map().contains_key(k),
            forall|k: Seq<char>|
                k != endpoint_id@ && old(self).endpoints_map().contains_key(k) ==> #[trigger] final(self).endpoints_map().val_of(k) == old(self).endpoints_map().val_of(k),
            final(self).budgets_map() == old(self).budgets_map(),
            final(self).history() == old(self).history(),
            final(self).spec_config() == old(self).spec_config(),
    {
        match self.endpoints.remove(endpoint_id) {
            Some(_) => true,
            None => false,
        }
    }

    /// Give an agent a fresh allowance.
    pub fn set_budget(&mut self, agent_id: &str, initial_tokens: u64, reset_at: i64)
        requires
            old(self).wf(),
        ensures
            final(self).wf(),
            final(self).budgets_map().contains_key(agent_id@),
            final(self).budgets_map().val_of(agent_id@).initial_tokens == initial_tokens,
            final(self).budgets_map().val_of(agent_id@).remaining_tokens == initial_tokens,
            final(self).budgets_map().val_of(agent_id@).reset_at == reset_at,
            forall|k: Seq<char>|
                k != agent_id@ ==> #[trigger] final(self).budgets_map().contains_key(k) == old(
                    self,
                ).budgets_map().contains_key(k),
            forall|k: Seq<char>|
                k != agent_id@ && old(self).budgets_map().contains_key(k) ==> #[trigger] final(self).budgets_map().val_of(k) == old(self).budgets_map().val_of(k),
            final(self).endpoints_map() == old(self).endpoints_map(),
            final(self).history() == old(self).history(),
            final(self).spec_config() == old(self).spec_config(),
    {
        let info = BudgetInfo {
            agent_id: String::from_str(agent_id),
            initial_tokens,
            remaining_tokens: initial_tokens,
            reset_at,
        };
        self.budgets.insert(String::from_str(agent_id), info);
    }

    /// Debit an agent's balance: granted exactly when the amount fits; an
    /// agent without a budget is unbounded. Returns the balance left.
    pub fn consume_budget(&mut self, agent_id: &str, tokens: u64) -> (r: Result<u64, RoutingError>)
        requires
            old(self).wf(),
        ensures
            final(self).wf(),
            !old(self).budgets_map().contains_key(agent_id@) ==> (r matches Ok(v) && v == u64::MAX
                && *final(self) == *old(self)),
            old(self).budgets_map().contains_key(agent_id@) ==> {
                let before = old(self).budgets_map().val_of(agent_id@);
                let step = spec_consume_step(before.remaining_tokens, tokens);
                &&& (step.1 ==> (r matches Ok(v) && v == step.0))
                &&& (!step.1 ==> (r matches Err(e) && e matches RoutingError::BudgetExceeded {
                    agent_id: a,
                    required,
                    available,
                } && a@ == agent_id@ && required == tokens && available == before.remaining_tokens
                    && *final(self) == *old(self)))
                &&& final(self).budgets_map().contains_key(agent_id@)
                &&& final(self).budgets_map().val_of(agent_id@).remaining_tokens == step.0
                &&& final(self).budgets_map().val_of(agent_id@).initial_tokens
                    == before.initial_tokens
                &&& final(self).budgets_map().val_of(agent_id@).reset_at == before.reset_at
                &&& final(self).budgets_map().val_of(agent_id@).agent_id == before.agent_id
            },
            forall|k: Seq<char>|
                #[trigger] final(self).budgets_map().contains_key(k) == old(
                    self,
                ).budgets_map().contains_key(k),
            forall|k: Seq<char>|
                k != agent_id@ && old(self).budgets_map().contains_key(k) ==> #[trigger] final(self).budgets_map().val_of(k) == old(self).budgets_map().val_of(k),
            final(self).endpoints_map() == old(self).endpoints_map(),
            final(self).history() == old(self).history(),
            final(self).spec_config() == old(self).spec_config(),
    {
        let remaining = match self.budgets.get(agent_id) {
            Some(b) => Some(b.remaining_tokens),
            None => None,
        };
        match remaining {
            Some(available) => {
                if available < tokens {
                    Err(
                        RoutingError::BudgetExceeded {
                            agent_id: String::from_str(agent_id),
                            required: tokens,
                            available,
                        },
                    )
                } else {
                    match self.budgets.remove(agent_id) {
                        Some(mut b) => {
                            b.remaining_tokens = b.remaining_tokens - tokens;
                            let left = b.remaining_tokens;
                            self.budgets.insert(String::from_str(agent_id), b);
                            Ok(left)
                        },
                        None => Ok(u64::MAX),
                    }
                }
            },
            None => Ok(u64::MAX),
        }
    }

    /// The balance an agent has left; unbounded without a budget.
    pub fn get_remaining_budget(&self, agent_id: &str) -> (r: u64)
        requires
            self.wf(),
        ensures
            self.budgets_map().contains_key(agent_id@) ==> r == self.budgets_map().val_of(
                agent_id@,
            ).remaining_tokens,
            !self.budgets_map().contains_key(agent_id@) ==> r == u64::MAX,
    {
        match self.budgets.get(agent_id) {
            Some(b) => b.remaining_tokens,
            None => u64::MAX,
        }
    }

    /// Refill an agent's balance to its initial allowance.
    pub fn reset_budget(&mut self, agent_id: &str)
        requires
            old(self).wf(),
        ensures
            final(self).wf(),
            !old(self).budgets_map().contains_key(agent_id@) ==> *final(self) == *old(self),
            old(self).budgets_map().contains_key(agent_id@) ==> {
                let before = old(self).budgets_map().val_of(agent_id@);
                &&& final(self).budgets_map().contains_key(agent_id@)
                &&& final(self).budgets_map().val_of(agent_id@).remaining_tokens
                    == before.initial_tokens
                &&& final(self).budgets_map().val_of(agent_id@).initial_tokens
                    == before.initial_tokens
                &&& final(self).budgets_map().val_of(agent_id@).reset_at == before.reset_at
                &&& final(self).budgets_map().val_of(agent_id@).agent_id == before.agent_id
            },
            forall|k: Seq<char>|
                #[trigger] final(self).budgets_map().contains_key(k) == old(
                    self,
                ).budgets_map().contains_key(k),
            forall|k: Seq<char>|
                k != agent_id@ && old(self).budgets_map().contains_key(k) ==> #[trigger] final(self).budgets_map().val_of(k) == old(self).budgets_map().val_of(k),
            final(self).endpoints_map() == old(self).endpoints_map(),
            final(self).history() == old(self).history(),
            final(self).spec_config() == old(self).spec_config(),
    {
        match self.budgets.remove(agent_id) {
            Some(mut b) => {
                b.remaining_tokens = b.initial_tokens;
                self.budgets.insert(String::from_str(agent_id), b);
            },
            None => {},
        }
    }

    /// A copy of an agent's budget record.
    pub fn get_budget_info(&self, agent_id: &str) -> (r: Option<BudgetInfo>)
        requires
            self.wf(),
        ensures
            self.budgets_map().contains_key(agent_id@) ==> (r matches Some(b) && b == self.budgets_map().val_of(
                agent_id@,
            )),
            !self.budgets_map().contains_key(agent_id@) ==> r is None,
    {
        match self.budgets.get(agent_id) {
            Some(b) => Some(
                BudgetInfo {
                    agent_id: b.agent_id.clone(),
                    initial_tokens: b.initial_tokens,
                    remaining_tokens: b.remaining_tokens,
                    reset_at: b.reset_at,
                },
            ),
            None => None,
        }
    }
}

/// Whether `k` is the view of one of the identifiers in `ex`.
pub open spec fn id_excluded(ex: Seq<String>, k: Seq<char>) -> bool {
    exists|j: int| 0 <= j < ex.len() && #[trigger] ex[j]@ == k
}

/// The selection order is transitive.
pub proof fn lemma_precedes_trans(
    w: ScoringWeights,
    a: EndpointMetrics,
    b: EndpointMetrics,
    c: EndpointMetrics,
)
    requires
        spec_precedes(w, a, b),
        spec_precedes(w, b, c),
    ensures
        spec_precedes(w, a, c),
{
    if spec_score(w, a) == spec_score(w, b) && spec_score(w, b) == spec_score(w, c) {
        crate::strutil::lemma_bytes_lex_trans(
            vstd::utf8::encode_utf8(a.endpoint_id@),
            vstd::utf8::encode_utf8(b.endpoint_id@),
            vstd::utf8::encode_utf8(c.endpoint_id@),
        );
    }
}

/// The selection order is asymmetric.
pub proof fn lemma_precedes_asym(w: ScoringWeights, a: EndpointMetrics, b: EndpointMetrics)
    ensures
        !(spec_precedes(w, a, b) && spec_precedes(w, b, a)),
{
    if spec_precedes(w, a, b) && spec_precedes(w, b, a) {
        crate::strutil::lemma_bytes_lex_asym(
            vstd::utf8::encode_utf8(a.endpoint_id@),
            vstd::utf8::encode_utf8(b.endpoint_id@),
        );
    }
}

/// A key naming a healthy endpoint that the selection order puts before
/// every other healthy endpoint.
pub open spec fn is_best_healthy(r: CostAwareRouter, k: Seq<char>) -> bool {
    r.healthy_key(k) && forall|k2: Seq<char>|
        #[trigger] r.healthy_key(k2) && k2 != k ==> spec_precedes(
            r.spec_config().weights,
            r.endpoints_map().val_of(k).metrics,
            r.endpoints_map().val_of(k2).metrics,
        )
}

/// The identifier of the endpoint routing would pick: the best healthy
/// one. Meaningful whenever any healthy endpoint is registered.
pub open spec fn spec_chosen_key(r: CostAwareRouter) -> Seq<char> {
    choose|k: Seq<char>| is_best_healthy(r, k)
}

/// At most one key is best: the selection order is total over distinct
/// identifiers and asymmetric.
pub proof fn lemma_best_healthy_unique(r: CostAwareRouter, k1: Seq<char>, k2: Seq<char>)
    requires
        r.wf(),
        is_best_healthy(r, k1),
        is_best_healthy(r, k2),
    ensures
        k1 == k2,
{
    if k1 != k2 {
        let m1 = r.endpoints_map().val_of(k1).metrics;
        let m2 = r.endpoints_map().val_of(k2).metrics;
        assert(spec_precedes(r.spec_config().weights, m1, m2));
        assert(spec_precedes(r.spec_config().weights, m2, m1));
        lemma_precedes_asym(r.spec_config().weights, m1, m2);
    }
}

/// An endpoint the router reports as degraded: labelled so, error-prone, or
/// close to its capacity.
pub open spec fn spec_degraded(m: EndpointMetrics) -> bool {
    m.health_status == HealthStatus::Degraded || m.error_rate_ppm > 100000 || spec_load_permille(
        m.current_load,
        m.capacity,
    ) >= 900
}

/// The identifiers of the degraded endpoints among `s`, in registry order.
pub open spec fn degraded_ids(s: Seq<(Seq<char>, Endpoint)>) -> Seq<Seq<char>>
    decreases s.len(),
{
    if s.len() == 0 {
        Seq::empty()
    } else {
        (if spec_degraded(s[0].1.metrics) {
            seq![s[0].0]
        } else {
            Seq::empty()
        }) + degraded_ids(s.drop_first())
    }
}

proof fn lemma_degraded_ids_push(s: Seq<(Seq<char>, Endpoint)>, x: (Seq<char>, Endpoint))
    ensures
        degraded_ids(s.push(x)) == degraded_ids(s) + (if spec_degraded(x.1.metrics) {
            seq![x.0]
        } else {
            Seq::<Seq<char>>::empty()
        }),
    decreases s.len(),
{
    let tail = if spec_degraded(x.1.metrics) {
        seq![x.0]
    } else {
        Seq::<Seq<char>>::empty()
    };
    if s.len() == 0 {
        assert(s.push(x)[0] == x);
        assert(s.push(x).drop_first() =~= Seq::<(Seq<char>, Endpoint)>::empty());
        assert(degraded_ids(Seq::<(Seq<char>, Endpoint)>::empty()) == Seq::<Seq<char>>::empty());
        assert(degraded_ids(s.push(x)) =~= tail);
        assert(degraded_ids(s) + tail =~= tail);
    } else {
        assert(s.push(x).drop_first() =~= s.drop_first().push(x));
        lemma_degraded_ids_push(s.drop_first(), x);
        let head = if spec_degraded(s[0].1.metrics) {
            seq![s[0].0]
        } else {
            Seq::<Seq<char>>::empty()
        };
        assert(s.push(x)[0] == s[0]);
        assert(degraded_ids(s.push(x)) == head + (degraded_ids(s.drop_first()) + tail));
        assert(head + (degraded_ids(s.drop_first()) + tail) =~= (head + degraded_ids(
            s.drop_first(),
        )) + tail);
    }
}

/// How many of the entries hold a healthy endpoint.
pub open spec fn count_healthy(s: Seq<(Seq<char>, Endpoint)>) -> nat
    decreases s.len(),
{
    if s.len() == 0 {
        0
    } else {
        (if s[0].1.spec_is_healthy() {
            1nat
        } else {
            0nat
        }) + count_healthy(s.drop_first())
    }
}

proof fn lemma_count_healthy_push(s: Seq<(Seq<char>, Endpoint)>, x: (Seq<char>, Endpoint))
    ensures
        count_healthy(s.push(x)) == count_healthy(s) + (if x.1.spec_is_healthy() {
            1nat
        } else {
            0nat
        }),
    decreases s.len(),
{
    if s.len() == 0 {
        assert(s.push(x)[0] == x);
        assert(s.push(x).drop_first() =~= Seq::<(Seq<char>, Endpoint)>::empty());
        assert(count_healthy(Seq::<(Seq<char>, Endpoint)>::empty()) == 0);
    } else {
        assert(s.push(x).drop_first() =~= s.drop_first().push(x));
        lemma_count_healthy_push(s.drop_first(), x);
        assert(s.push(x)[0] == s[0]);
    }
}

/// Two decisions that agree in every observable field.
pub open spec fn decision_like(a: RoutingDecision, b: RoutingDecision) -> bool {
    &&& a.message_id == b.message_id
    &&& a.target_endpoint == b.target_endpoint
    &&& a.estimated_latency_ms == b.estimated_latency_ms
    &&& a.estimated_cost == b.estimated_cost
    &&& a.routing_reason == b.routing_reason
    &&& a.fallback_endpoints@ == b.fallback_endpoints@
    &&& a.score_breakdown == b.score_breakdown
}

/// The reason text for a decision: the total score and its three terms.
pub open spec fn spec_reason(total: nat, cost: nat, load_pm: nat, latency: nat) -> Seq<char> {
    "score "@ + crate::text::dec_str(total) + " (cost per 1k tokens: "@ + crate::text::dec_str(
        cost,
    ) + ", load permille: "@ + crate::text::dec_str(load_pm) + ", latency ms: "@
        + crate::text::dec_str(latency) + ")"@
}

fn build_reason(total: u128, cost: u64, load_pm: u64, latency: u32) -> (r: String)
    ensures
        r@ == spec_reason(total as nat, cost as nat, load_pm as nat, latency as nat),
{
    let mut s = String::from_str("score ");
    let t = crate::text::u128_to_string(total);
    s.append(t.as_str());
    s.append(" (cost per 1k tokens: ");
    let c = crate::text::u64_to_string(cost);
    s.append(c.as_str());
    s.append(", load permille: ");
    let l = crate::text::u64_to_string(load_pm);
    s.append(l.as_str());
    s.append(", latency ms: ");
    let y = crate::text::u64_to_string(latency as u64);
    s.append(y.as_str());
    s.append(")");
    s
}

fn clone_decision(d: &RoutingDecision) -> (r: RoutingDecision)
    ensures
        decision_like(*d, r),
{
    RoutingDecision {
        message_id: d.message_id.clone(),
        target_endpoint: d.target_endpoint.clone(),
        estimated_latency_ms: d.estimated_latency_ms,
        estimated_cost: d.estimated_cost,
        routing_reason: d.routing_reason.clone(),
        fallback_endpoints: clone_string_vec(&d.fallback_endpoints),
        score_breakdown: d.score_breakdown,
    }
}

/// Copy reported metrics field by field.
pub fn clone_metrics(m: &EndpointMetrics) -> (r: EndpointMetrics)
    ensures
        r == *m,
{
    EndpointMetrics {
        endpoint_id: m.endpoint_id.clone(),
        capacity: m.capacity,
        current_load: m.current_load,
        cost_per_1k_tokens: m.cost_per_1k_tokens,
        latency_p99_ms: m.latency_p99_ms,
        error_rate_ppm: m.error_rate_ppm,
        last_health_check: m.last_health_check,
        health_status: m.health_status,
    }
}

fn id_in_list(ex: &Vec<String>, id: &str) -> (r: bool)
    ensures
        r == id_excluded(ex@, id@),
{
    let n = ex.len();
    let mut i: usize = 0;
    while i < n
        invariant
            n == ex@.len(),
            i <= n,
            forall|j: int| 0 <= j < i ==> #[trigger] ex@[j]@ != id@,
        decreases n - i,
    {
        if crate::strutil::str_eq(ex[i].as_str(), id) {
            return true;
        }
        i += 1;
    }
    false
}

/// Counts of what the router holds and has decided.
#[derive(Clone, Copy, Debug)]
pub struct RouterStats {
    pub total_decisions: usize,
    pub endpoints_count: usize,
    pub healthy_endpoints: usize,
    pub agents_with_budget: usize,
}

impl CostAwareRouter {
    /// The scaled score of one endpoint under the configured weights.
    fn score_of(&self, e: &Endpoint) -> (r: u128)
        requires
            self.spec_config().wf(),
        ensures
            r == spec_score(self.spec_config().weights, e.metrics),
    {
        let w = self.config.weights;
        let lp: u64 = e.load_permille();
        proof {
            vstd::arithmetic::mul::lemma_mul_upper_bound(
                w.cost_weight as int,
                1000,
                e.metrics.cost_per_1k_tokens as int,
                u64::MAX as int,
            );
            vstd::arithmetic::mul::lemma_mul_upper_bound(
                (w.cost_weight * e.metrics.cost_per_1k_tokens) as int,
                1000 * (u64::MAX as int),
                1000,
                1000,
            );
            vstd::arithmetic::mul::lemma_mul_upper_bound(
                w.load_weight as int,
                1000,
                lp as int,
                u64::MAX as int,
            );
            vstd::arithmetic::mul::lemma_mul_upper_bound(
                (w.load_weight * lp) as int,
                1000 * (u64::MAX as int),
                100,
                100,
            );
            vstd::arithmetic::mul::lemma_mul_upper_bound(
                w.latency_weight as int,
                1000,
                e.metrics.latency_p99_ms as int,
                u32::MAX as int,
            );
            vstd::arithmetic::mul::lemma_mul_upper_bound(
                (w.latency_weight * e.metrics.latency_p99_ms) as int,
                1000 * (u32::MAX as int),
                1000,
                1000,
            );
        }
        let cost_term: u128 = (w.cost_weight as u128) * (e.metrics.cost_per_1k_tokens as u128)
            * 1000;
        let load_term: u128 = (w.load_weight as u128) * (lp as u128) * 100;
        let lat_term: u128 = (w.latency_weight as u128) * (e.metrics.latency_p99_ms as u128)
            * 1000;
        cost_term + load_term + lat_term
    }

    /// The registered healthy endpoint, not among `ex`, that the selection
    /// order puts first; nothing when every healthy endpoint is excluded.
    fn find_best_excluding(&self, ex: &Vec<String>) -> (r: Option<usize>)
        requires
            self.wf(),
        ensures
            match r {
                Some(i) => {
                    let es = self.endpoints_map().entries_seq();
                    &&& i < es.len()
                    &&& es[i as int].1.spec_is_healthy()
                    &&& !id_excluded(ex@, es[i as int].0)
                    &&& forall|k: Seq<char>|
                        #[trigger] self.healthy_key(k) && !id_excluded(ex@, k) && k != es[
                            i as int
                        ].0 ==> spec_precedes(
                            self.spec_config().weights,
                            es[i as int].1.metrics,
                            self.endpoints_map().val_of(k).metrics,
                        )
                },
                None => forall|k: Seq<char>| #[trigger] self.healthy_key(k) ==> id_excluded(ex@, k),
            },
    {
        let ghost es = self.endpoints_map().entries_seq();
        let ghost w = self.spec_config().weights;
        let n = self.endpoints.len();
        let mut best: Option<usize> = None;
        let mut i: usize = 0;
        while i < n
            invariant
                self.wf(),
                es == self.endpoints_map().entries_seq(),
                w == self.spec_config().weights,
                n == self.endpoints_map().num_entries(),
                i <= n,
                match best {
                    Some(b) => {
                        &&& b < i
                        &&& es[b as int].1.spec_is_healthy()
                        &&& !id_excluded(ex@, es[b as int].0)
                        &&& forall|j: int|
                            0 <= j < i && j != b && (#[trigger] es[j].1).spec_is_healthy()
                                && !id_excluded(ex@, es[j].0) ==> spec_precedes(
                                w,
                                es[b as int].1.metrics,
                                es[j].1.metrics,
                            )
                    },
                    None => forall|j: int|
                        0 <= j < i && (#[trigger] es[j].1).spec_is_healthy() ==> id_excluded(
                            ex@,
                            es[j].0,
                        ),
                },
            decreases n - i,
        {
            let healthy = self.endpoints.val_at(i).is_healthy();
            let excl = id_in_list(ex, self.endpoints.key_at(i).as_str());
            if healthy && !excl {
                match best {
                    None => {
                        best = Some(i);
                    },
                    Some(b) => {
                        let sb = self.score_of(self.endpoints.val_at(b));
                        let si = self.score_of(self.endpoints.val_at(i));
                        let tie_first = if si == sb {
                            crate::strutil::str_lt_exec(
                                self.endpoints.key_at(i).as_str(),
                                self.endpoints.key_at(b).as_str(),
                            )
                        } else {
                            false
                        };
                        if si < sb || tie_first {
                            proof {
                                assert(es[i as int].0 == es[i as int].1.metrics.endpoint_id@);
                                assert(es[b as int].0 == es[b as int].1.metrics.endpoint_id@);
                                assert(spec_precedes(w, es[i as int].1.metrics, es[b as int].1.metrics));
                                assert forall|j: int|
                                    0 <= j < i + 1 && j != i && (#[trigger] es[j].1).spec_is_healthy()
                                        && !id_excluded(ex@, es[j].0) implies spec_precedes(
                                    w,
                                    es[i as int].1.metrics,
                                    es[j].1.metrics,
                                ) by {
                                    if j != b {
                                        lemma_precedes_trans(
                                            w,
                                            es[i as int].1.metrics,
                                            es[b as int].1.metrics,
                                            es[j].1.metrics,
                                        );
                                    }
                                }
                            }
                            best = Some(i);
                        } else {
                            proof {
                                assert(es[i as int].0 == es[i as int].1.metrics.endpoint_id@);
                                assert(es[b as int].0 == es[b as int].1.metrics.endpoint_id@);
                                assert(es[b as int].0 != es[i as int].0);
                                if sb == si {
                                    lemma_precedes_total(
                                        w,
                                        es[b as int].1.metrics,
                                        es[i as int].1.metrics,
                                    );
                                }
                                assert(spec_precedes(w, es[b as int].1.metrics, es[i as int].1.metrics));
                            }
                        }
                    },
                }
            }
            i += 1;
        }
        proof {
            match best {
                Some(b) => {
                    assert forall|k: Seq<char>|
                        #[trigger] self.healthy_key(k) && !id_excluded(ex@, k) && k != es[
                            b as int
                        ].0 implies spec_precedes(
                        w,
                        es[b as int].1.metrics,
                        self.endpoints_map().val_of(k).metrics,
                    ) by {
                        let j = self.endpoints_map().index_of(k);
                        assert(es[j].0 == k);
                        assert(es[j].1 == self.endpoints_map().val_of(k));
                    }
                },
                None => {
                    assert forall|k: Seq<char>| #[trigger] self.healthy_key(k) implies id_excluded(
                        ex@,
                        k,
                    ) by {
                        let j = self.endpoints_map().index_of(k);
                        assert(es[j].0 == k);
                        assert(es[j].1 == self.endpoints_map().val_of(k));
                    }
                },
            }
        }
        best
    }

    /// Append a decision to the bounded history ring: past the cap, the
    /// oldest entries leave.
    fn push_history(&mut self, d: RoutingDecision)
        requires
            old(self).wf(),
        ensures
            final(self).wf(),
            final(self).endpoints_map() == old(self).endpoints_map(),
            final(self).budgets_map() == old(self).budgets_map(),
            final(self).spec_config() == old(self).spec_config(),
            old(self).history().len() + 1 <= HISTORY_CAP ==> final(self).history() == old(
                self,
            ).history().push(d),
            old(self).history().len() + 1 > HISTORY_CAP ==> final(self).history() == old(
                self,
            ).history().push(d).skip(HISTORY_DROP as int),
    {
        self.routing_history.push(d);
        if self.routing_history.len() > HISTORY_CAP {
            let tail = self.routing_history.split_off(HISTORY_DROP);
            self.routing_history = tail;
            proof {
                assert(old(self).history().push(d).skip(HISTORY_DROP as int) =~= self.routing_history@);
            }
        }
    }

    /// Route a message: veto it when the agent's balance cannot cover the
    /// estimate, pick the best healthy endpoint with up to two fallbacks,
    /// and log the decision. Routing changes neither the registry nor any
    /// balance.
    pub fn route(&mut self, message: &AiMessage) -> (r: Result<RoutingDecision, RoutingError>)
        requires
            old(self).wf(),
        ensures
            final(self).wf(),
            final(self).endpoints_map() == old(self).endpoints_map(),
            final(self).budgets_map() == old(self).budgets_map(),
            final(self).spec_config() == old(self).spec_config(),
            forall|k: Seq<char>| #[trigger] final(self).healthy_key(k) == old(self).healthy_key(k),
            ({
                let over = old(self).budgets_map().contains_key(message.agent_id@) && old(
                    self,
                ).budgets_map().val_of(message.agent_id@).remaining_tokens
                    < message.estimated_cost_tokens;
                let any_healthy = exists|k: Seq<char>| #[trigger] old(self).healthy_key(k);
                &&& (over ==> (r matches Err(e) && e matches RoutingError::BudgetExceeded {
                    agent_id,
                    required,
                    available,
                } && agent_id@ == message.agent_id@ && required == message.estimated_cost_tokens
                    && available == old(self).budgets_map().val_of(
                    message.agent_id@,
                ).remaining_tokens && final(self).history() == old(self).history()))
                &&& (!over && !any_healthy ==> (r matches Err(e) && e
                    matches RoutingError::NoHealthyEndpoints && final(self).history() == old(
                    self,
                ).history()))
                &&& (!over && any_healthy ==> (r matches Ok(d) && {
                    let es = old(self).endpoints_map();
                    let key = d.target_endpoint@;
                    let chosen = es.val_of(key).metrics;
                    let w = old(self).spec_config().weights;
                    &&& old(self).healthy_key(key)
                    &&& forall|k: Seq<char>|
                        #[trigger] old(self).healthy_key(k) && k != key ==> spec_precedes(
                            w,
                            chosen,
                            es.val_of(k).metrics,
                        )
                    &&& d.message_id@ == message.message_id@
                    &&& d.estimated_cost == spec_estimated_cost(
                        chosen.cost_per_1k_tokens,
                        message.estimated_cost_tokens,
                    )
                    &&& d.estimated_latency_ms == chosen.latency_p99_ms as i32
                    &&& d.fallback_endpoints@.len() <= 2
                    &&& forall|j: int|
                        0 <= j < d.fallback_endpoints@.len() ==> old(self).healthy_key(
                            (#[trigger] d.fallback_endpoints@[j])@,
                        ) && d.fallback_endpoints@[j]@ != key
                    &&& (d.fallback_endpoints@.len() == 2 ==> d.fallback_endpoints@[0]@
                        != d.fallback_endpoints@[1]@)
                    &&& (d.fallback_endpoints@.len() >= 1 ==> forall|k: Seq<char>|
                        #[trigger] old(self).healthy_key(k) && k != key && k
                            != d.fallback_endpoints@[0]@ ==> spec_precedes(
                            w,
                            es.val_of(d.fallback_endpoints@[0]@).metrics,
                            es.val_of(k).metrics,
                        ))
                    &&& (d.fallback_endpoints@.len() == 2 ==> forall|k: Seq<char>|
                        #[trigger] old(self).healthy_key(k) && k != key && k
                            != d.fallback_endpoints@[0]@ && k != d.fallback_endpoints@[1]@
                            ==> spec_precedes(
                            w,
                            es.val_of(d.fallback_endpoints@[1]@).metrics,
                            es.val_of(k).metrics,
                        ))
                    &&& (d.fallback_endpoints@.len() == 0 ==> forall|k: Seq<char>|
                        #[trigger] old(self).healthy_key(k) ==> k == key)
                    &&& (d.fallback_endpoints@.len() == 1 ==> forall|k: Seq<char>|
                        #[trigger] old(self).healthy_key(k) ==> k == key || k
                            == d.fallback_endpoints@[0]@)
                    &&& key == spec_chosen_key(*old(self))
                    &&& (old(self).history().len() + 1 <= HISTORY_CAP ==> final(self).history().len()
                        == old(self).history().len() + 1 && final(self).history() == old(
                        self,
                    ).history().push(final(self).history().last()) && decision_like(
                        final(self).history().last(),
                        d,
                    ))
                    &&& (old(self).history().len() + 1 > HISTORY_CAP ==> final(self).history().len()
                        == HISTORY_CAP + 1 - HISTORY_DROP && final(self).history() == old(
                        self,
                    ).history().push(final(self).history().last()).skip(HISTORY_DROP as int)
                        && decision_like(final(self).history().last(), d))
                }))
            }),
    {
        let est = message.estimated_cost_tokens;
        let over = match self.budgets.get(message.agent_id.as_str()) {
            Some(b) => {
                if b.remaining_tokens < est {
                    Some(b.remaining_tokens)
                } else {
                    None
                }
            },
            None => None,
        };
        if let Some(available) = over {
            return Err(
                RoutingError::BudgetExceeded {
                    agent_id: message.agent_id.clone(),
                    required: est,
                    available,
                },
            );
        }
        let no_ex: Vec<String> = Vec::new();
        let best_i = match self.find_best_excluding(&no_ex) {
            Some(i) => i,
            None => {
                proof {
                    assert forall|k: Seq<char>| !(#[trigger] self.healthy_key(k)) by {
                        if self.healthy_key(k) {
                            assert(id_excluded(no_ex@, k));
                        }
                    }
                }
                return Err(RoutingError::NoHealthyEndpoints);
            },
        };
        proof {
            let es = self.endpoints_map().entries_seq();
            self.endpoints_map().lemma_index_unique(es[best_i as int].0, best_i as int);
        }
        let best_id: String = self.endpoints.key_at(best_i).clone();
        let chosen_cost: u64 = self.endpoints.val_at(best_i).metrics.cost_per_1k_tokens;
        let chosen_latency: u32 = self.endpoints.val_at(best_i).metrics.latency_p99_ms;
        let chosen_load_pm: u64 = self.endpoints.val_at(best_i).load_permille();
        let total_score: u128 = self.score_of(self.endpoints.val_at(best_i));
        let w = self.config.weights;
        proof {
            vstd::arithmetic::mul::lemma_mul_upper_bound(
                chosen_cost as int,
                u64::MAX as int,
                est as int,
                u64::MAX as int,
            );
        }
        let cost_num: u128 = (chosen_cost as u128) * (est as u128);
        let cost_q: u128 = cost_num / 1000;
        let estimated_cost: u64 = if cost_q > (u64::MAX as u128) {
            u64::MAX
        } else {
            cost_q as u64
        };
        let reason = build_reason(total_score, chosen_cost, chosen_load_pm, chosen_latency);
        let mut d = RoutingDecision::new(
            message.message_id.clone(),
            best_id.clone(),
            chosen_latency as i32,
            estimated_cost,
            reason,
        );
        let mut ex: Vec<String> = Vec::new();
        ex.push(best_id.clone());
        proof {
            assert(forall|k: Seq<char>| id_excluded(ex@, k) ==> k == best_id@);
            assert(ex@[0]@ == best_id@);
        }
        match self.find_best_excluding(&ex) {
            Some(j) => {
                proof {
                    let es = self.endpoints_map().entries_seq();
                    self.endpoints_map().lemma_index_unique(es[j as int].0, j as int);
                }
                let fb0: String = self.endpoints.key_at(j).clone();
                d = d.with_fallback(fb0.clone());
                ex.push(fb0.clone());
                proof {
                    assert(ex@[0]@ == best_id@);
                    assert(ex@[1]@ == fb0@);
                    assert(forall|k: Seq<char>|
                        id_excluded(ex@, k) ==> k == best_id@ || k == fb0@);
                }
                match self.find_best_excluding(&ex) {
                    Some(j2) => {
                        proof {
                            let es = self.endpoints_map().entries_seq();
                            self.endpoints_map().lemma_index_unique(es[j2 as int].0, j2 as int);
                        }
                        let fb1: String = self.endpoints.key_at(j2).clone();
                        d = d.with_fallback(fb1.clone());
                    },
                    None => {},
                }
            },
            None => {},
        }
        proof {
            vstd::arithmetic::mul::lemma_mul_upper_bound(
                w.cost_weight as int,
                1000,
                chosen_cost as int,
                u64::MAX as int,
            );
            vstd::arithmetic::mul::lemma_mul_upper_bound(
                (w.cost_weight * chosen_cost) as int,
                1000 * (u64::MAX as int),
                1000,
                1000,
            );
            vstd::arithmetic::mul::lemma_mul_upper_bound(
                w.load_weight as int,
                1000,
                chosen_load_pm as int,
                u64::MAX as int,
            );
            vstd::arithmetic::mul::lemma_mul_upper_bound(
                (w.load_weight * chosen_load_pm) as int,
                1000 * (u64::MAX as int),
                100,
                100,
            );
            vstd::arithmetic::mul::lemma_mul_upper_bound(
                w.latency_weight as int,
                1000,
                chosen_latency as int,
                u32::MAX as int,
            );
            vstd::arithmetic::mul::lemma_mul_upper_bound(
                (w.latency_weight * chosen_latency) as int,
                1000 * (u32::MAX as int),
                1000,
                1000,
            );
        }
        let cost_term: u128 = (w.cost_weight as u128) * (chosen_cost as u128) * 1000;
        let load_term: u128 = (w.load_weight as u128) * (chosen_load_pm as u128) * 100;
        let lat_term: u128 = (w.latency_weight as u128) * (chosen_latency as u128) * 1000;
        d = d.with_score(cost_term, load_term, lat_term);
        proof {
            let es = old(self).endpoints_map().entries_seq();
            assert(d.target_endpoint@ == es[best_i as int].0);
            assert(old(self).healthy_key(es[best_i as int].0));
            assert forall|k2: Seq<char>|
                #[trigger] old(self).healthy_key(k2) && k2 != es[best_i as int].0 implies spec_precedes(
                old(self).spec_config().weights,
                old(self).endpoints_map().val_of(es[best_i as int].0).metrics,
                old(self).endpoints_map().val_of(k2).metrics,
            ) by {
                assert(!id_excluded(no_ex@, k2));
            }
            assert(is_best_healthy(*old(self), es[best_i as int].0));
            assert(is_best_healthy(*old(self), spec_chosen_key(*old(self))));
            lemma_best_healthy_unique(
                *old(self),
                spec_chosen_key(*old(self)),
                es[best_i as int].0,
            );
        }
        let dd = clone_decision(&d);
        let ghost gdd = dd;
        self.push_history(dd);
        proof {
            if old(self).history().len() + 1 <= HISTORY_CAP {
                assert(self.history().last() == gdd);
            } else {
                assert(self.history()[self.history().len() - 1] == old(self).history().push(
                    gdd,
                )[old(self).history().len() as int]);
                assert(self.history().last() == gdd);
            }
        }
        Ok(d)
    }

    /// Route and report how many retries were spent; the caller walks the
    /// fallback list itself, so none are.
    pub fn route_with_retry(&mut self, message: &AiMessage) -> (r: Result<
        (RoutingDecision, usize),
        RoutingError,
    >)
        requires
            old(self).wf(),
        ensures
            final(self).wf(),
            final(self).endpoints_map() == old(self).endpoints_map(),
            final(self).budgets_map() == old(self).budgets_map(),
            final(self).spec_config() == old(self).spec_config(),
            r matches Ok(p) ==> p.1 == 0,
    {
        match self.route(message) {
            Ok(d) => Ok((d, 0)),
            Err(e) => Err(e),
        }
    }

    /// Counts over the router's state.
    pub fn get_stats(&self) -> (r: RouterStats)
        requires
            self.wf(),
        ensures
            r.total_decisions == self.history().len(),
            r.endpoints_count == self.endpoints_map().num_entries(),
            r.healthy_endpoints == count_healthy(self.endpoints_map().entries_seq()),
            r.agents_with_budget == self.budgets_map().num_entries(),
    {
        let ghost es = self.endpoints_map().entries_seq();
        let n = self.endpoints.len();
        let mut healthy: usize = 0;
        let mut i: usize = 0;
        proof {
            assert(es.take(0) =~= Seq::<(Seq<char>, Endpoint)>::empty());
        }
        while i < n
            invariant
                self.wf(),
                es == self.endpoints_map().entries_seq(),
                n == self.endpoints_map().num_entries(),
                i <= n,
                healthy <= i,
                healthy == count_healthy(es.take(i as int)),
            decreases n - i,
        {
            if self.endpoints.val_at(i).is_healthy() {
                healthy = healthy + 1;
            }
            proof {
                lemma_count_healthy_push(es.take(i as int), es[i as int]);
                assert(es.take(i as int).push(es[i as int]) =~= es.take(i + 1));
            }
            i += 1;
        }
        proof {
            assert(es.take(n as int) =~= es);
        }
        RouterStats {
            total_decisions: self.routing_history.len(),
            endpoints_count: n,
            healthy_endpoints: healthy,
            agents_with_budget: self.budgets.len(),
        }
    }

    /// The reported metrics of every registered endpoint, in registry
    /// order.
    pub fn list_endpoints(&self) -> (r: Vec<EndpointMetrics>)
        requires
            self.wf(),
        ensures
            r@.len() == self.endpoints_map().num_entries(),
            forall|i: int|
                0 <= i < r@.len() ==> #[trigger] r@[i] == self.endpoints_map().entries_seq()[i].1.metrics,
    {
        let ghost es = self.endpoints_map().entries_seq();
        let n = self.endpoints.len();
        let mut out: Vec<EndpointMetrics> = Vec::new();
        let mut i: usize = 0;
        while i < n
            invariant
                self.wf(),
                es == self.endpoints_map().entries_seq(),
                n == self.endpoints_map().num_entries(),
                i <= n,
                out@.len() == i,
                forall|j: int| 0 <= j < i ==> #[trigger] out@[j] == es[j].1.metrics,
            decreases n - i,
        {
            out.push(clone_metrics(&self.endpoints.val_at(i).metrics));
            i += 1;
        }
        out
    }

    /// The identifiers of the endpoints currently counted as degraded.
    pub fn get_degraded_endpoints(&self) -> (r: Vec<String>)
        requires
            self.wf(),
        ensures
            r.deep_view() == degraded_ids(self.endpoints_map().entries_seq()),
    {
        let ghost es = self.endpoints_map().entries_seq();
        let n = self.endpoints.len();
        let mut out: Vec<String> = Vec::new();
        let mut i: usize = 0;
        proof {
            assert(es.take(0) =~= Seq::<(Seq<char>, Endpoint)>::empty());
            assert(out.deep_view() =~= degraded_ids(es.take(0)));
        }
        while i < n
            invariant
                self.wf(),
                es == self.endpoints_map().entries_seq(),
                n == self.endpoints_map().num_entries(),
                i <= n,
                out.deep_view() == degraded_ids(es.take(i as int)),
            decreases n - i,
        {
            let e = self.endpoints.val_at(i);
            let degraded = match e.metrics.health_status {
                HealthStatus::Degraded => true,
                _ => e.metrics.error_rate_ppm > 100000 || e.load_permille() >= 900,
            };
            let ghost prev = out.deep_view();
            if degraded {
                out.push(self.endpoints.key_at(i).clone());
            }
            proof {
                lemma_degraded_ids_push(es.take(i as int), es[i as int]);
                assert(es.take(i as int).push(es[i as int]) =~= es.take(i + 1));
                if degraded {
                    assert(out.deep_view() =~= prev + seq![es[i as int].0]);
                } else {
                    assert(out.deep_view() =~= prev + Seq::<Seq<char>>::empty());
                }
            }
            i += 1;
        }
        proof {
            assert(es.take(n as int) =~= es);
        }
        out
    }
}

} // verus!
