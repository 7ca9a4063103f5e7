//! Message types, validation and the wire codec.
//!
//! A request is immutable after creation. Token amounts are whole tokens;
//! the cost of an endpoint is given per thousand tokens. A `deadline_ms` of
//! zero means "unset" and is treated as no deadline, not as already expired;
//! the sentinel `i64::MAX` likewise means no deadline.

use vstd::prelude::*;

verus! {

use vstd::string::StrSliceExecFns;
use vstd::string::StringExecFns;
use vstd::string::StringSliceAdditionalSpecFns;
use vstd::utf8::encode_utf8;
use crate::codec::append_bytes;
use crate::codec::append_i32;
use crate::codec::append_i64;
use crate::codec::append_pair_list;
use crate::codec::append_string;
use crate::codec::append_string_list;
use crate::codec::append_u64;
use crate::codec::dec_bytes;
use crate::codec::dec_i32;
use crate::codec::dec_i64;
use crate::codec::dec_pair_list;
use crate::codec::dec_string;
use crate::codec::dec_string_list;
use crate::codec::dec_u64;
use crate::codec::enc_bytes;
use crate::codec::enc_i32;
use crate::codec::enc_i64;
use crate::codec::enc_pair_list;
use crate::codec::enc_string;
use crate::codec::enc_string_list;
use crate::codec::enc_u64;
use crate::codec::lemma_dec_enc_bytes;
use crate::codec::lemma_dec_enc_i32;
use crate::codec::lemma_dec_enc_i64;
use crate::codec::lemma_dec_enc_pair_list;
use crate::codec::lemma_dec_enc_string;
use crate::codec::lemma_dec_enc_string_list;
use crate::codec::lemma_dec_enc_u64;
use crate::codec::pair_list_bounded;
use crate::codec::pairs_view;
use crate::codec::read_bytes;
use crate::codec::read_i32;
use crate::codec::read_i64;
use crate::codec::read_pair_list;
use crate::codec::read_string;
use crate::codec::read_string_list;
use crate::codec::read_u64;
use crate::codec::string_list_bounded;

/// Maximum accepted payload size in bytes (1 MiB).
pub const MAX_PAYLOAD_SIZE: usize = 1048576;

/// Faults raised while validating or decoding a message.
#[derive(Debug)]
pub enum ProtocolError {
    SerializationError(String),
    DeserializationFailed(String),
    ValidationFailed(String),
    MessageTooLarge { size: usize, max: usize },
    InvalidAgentId(String),
    BudgetExceeded { required: u64, available: u64 },
    DeadlineExpired { deadline_ms: i64, current_ms: i64 },
}

/// Health of a backend endpoint.
#[derive(Clone, Copy, PartialEq, Eq, Structural, Debug)]
pub enum HealthStatus {
    Unknown,
    Healthy,
    Degraded,
    Unhealthy,
}

/// Reported metrics of a backend endpoint. The error rate is in parts per
/// million of requests.
#[derive(Clone, Debug)]
pub struct EndpointMetrics {
    pub endpoint_id: String,
    pub capacity: u32,
    pub current_load: u32,
    pub cost_per_1k_tokens: u64,
    pub latency_p99_ms: u32,
    pub error_rate_ppm: u32,
    pub last_health_check: i64,
    pub health_status: HealthStatus,
}

/// Per-agent token allowance.
#[derive(Clone, Debug)]
pub struct BudgetInfo {
    pub agent_id: String,
    pub initial_tokens: u64,
    pub remaining_tokens: u64,
    pub reset_at: i64,
}

/// The score terms that ranked the chosen endpoint. Terms carry the scaled
/// fixed-point units of the router's scoring function.
#[derive(Clone, Copy, Debug)]
pub struct RoutingScore {
    pub cost_score: u128,
    pub load_score: u128,
    pub latency_score: u128,
    pub total_score: u128,
}

/// Outcome of routing one message.
#[derive(Clone, Debug)]
pub struct RoutingDecision {
    pub message_id: String,
    pub target_endpoint: String,
    pub estimated_latency_ms: i32,
    pub estimated_cost: u64,
    pub routing_reason: String,
    pub fallback_endpoints: Vec<String>,
    pub score_breakdown: Option<RoutingScore>,
}

impl RoutingDecision {
    pub fn new(
        message_id: String,
        target_endpoint: String,
        estimated_latency_ms: i32,
        estimated_cost: u64,
        routing_reason: String,
    ) -> (r: Self)
        ensures
            r.message_id == message_id,
            r.target_endpoint == target_endpoint,
            r.estimated_latency_ms == estimated_latency_ms,
            r.estimated_cost == estimated_cost,
            r.routing_reason == routing_reason,
            r.fallback_endpoints@.len() == 0,
            r.score_breakdown is None,
    {
        RoutingDecision {
            message_id,
            target_endpoint,
            estimated_latency_ms,
            estimated_cost,
            routing_reason,
            fallback_endpoints: Vec::new(),
            score_breakdown: None,
        }
    }

    /// Append one fallback endpoint.
    pub fn with_fallback(self, endpoint: String) -> (r: Self)
        ensures
            r.fallback_endpoints@ == self.fallback_endpoints@.push(endpoint),
            r.message_id == self.message_id,
            r.target_endpoint == self.target_endpoint,
            r.estimated_latency_ms == self.estimated_latency_ms,
            r.estimated_cost == self.estimated_cost,
            r.routing_reason == self.routing_reason,
            r.score_breakdown == self.score_breakdown,
    {
        let mut d = self;
        d.fallback_endpoints.push(endpoint);
        d
    }

    /// Attach the score terms; the total is their sum.
    pub fn with_score(self, cost: u128, load: u128, latency: u128) -> (r: Self)
        requires
            cost + load + latency <= u128::MAX,
        ensures
            r.score_breakdown matches Some(s) && s.cost_score == cost && s.load_score == load
                && s.latency_score == latency && s.total_score == cost + load + latency,
            r.message_id == self.message_id,
            r.target_endpoint == self.target_endpoint,
            r.estimated_latency_ms == self.estimated_latency_ms,
            r.estimated_cost == self.estimated_cost,
            r.routing_reason == self.routing_reason,
            r.fallback_endpoints == self.fallback_endpoints,
    {
        let mut d = self;
        d.score_breakdown = Some(
            RoutingScore {
                cost_score: cost,
                load_score: load,
                latency_score: latency,
                total_score: cost + load + latency,
            },
        );
        d
    }
}

/// Outcome carried back to the message sender.
#[derive(Clone, Copy, PartialEq, Eq, Structural, Debug)]
pub enum AckStatus {
    AckProcessed,
    AckFailed,
}

#[derive(Clone, Debug)]
pub struct AcknowledgmentMessage {
    pub original_message_id: String,
    pub status: AckStatus,
    pub tokens_used: u64,
    pub processing_latency_ms: i32,
    pub error: String,
    pub result: Vec<u8>,
}

impl AcknowledgmentMessage {
    pub fn success(
        original_message_id: String,
        tokens_used: u64,
        processing_latency_ms: i32,
        result: Vec<u8>,
    ) -> (r: Self)
        ensures
            r.original_message_id == original_message_id,
            r.status == AckStatus::AckProcessed,
            r.tokens_used == tokens_used,
            r.processing_latency_ms == processing_latency_ms,
            r.error@.len() == 0,
            r.result == result,
    {
        AcknowledgmentMessage {
            original_message_id,
            status: AckStatus::AckProcessed,
            tokens_used,
            processing_latency_ms,
            error: String::new(),
            result,
        }
    }

    pub fn failure(original_message_id: String, error: String) -> (r: Self)
        ensures
            r.original_message_id == original_message_id,
            r.status == AckStatus::AckFailed,
            r.tokens_used == 0,
            r.processing_latency_ms == 0,
            r.error == error,
            r.result@.len() == 0,
    {
        AcknowledgmentMessage {
            original_message_id,
            status: AckStatus::AckFailed,
            tokens_used: 0,
            processing_latency_ms: 0,
            error,
            result: Vec::new(),
        }
    }

    pub fn is_success(&self) -> (r: bool)
        ensures
            r == (self.status == AckStatus::AckProcessed),
    {
        self.status == AckStatus::AckProcessed
    }
}

/// The mathematical content of a message.
pub ghost struct MsgModel {
    pub agent_id: Seq<char>,
    pub message_id: Seq<char>,
    pub payload: Seq<u8>,
    pub estimated_cost_tokens: u64,
    pub budget_tokens: u64,
    pub deadline_ms: i64,
    pub task_graph_id: Seq<char>,
    pub dependencies: Seq<Seq<char>>,
    pub priority: i32,
    pub dedup_context: Seq<char>,
    pub trace_id: Seq<char>,
    pub metadata: Seq<(Seq<char>, Seq<char>)>,
    pub timestamp: i64,
}

/// A request to route, immutable after creation.
#[derive(Clone, Debug)]
pub struct AiMessage {
    pub agent_id: String,
    pub message_id: String,
    pub payload: Vec<u8>,
    pub estimated_cost_tokens: u64,
    pub budget_tokens: u64,
    pub deadline_ms: i64,
    pub task_graph_id: String,
    pub dependencies: Vec<String>,
    pub priority: i32,
    pub dedup_context: String,
    pub trace_id: String,
    pub metadata: Vec<(String, String)>,
    pub timestamp: i64,
}

impl View for AiMessage {
    type V = MsgModel;

    open spec fn view(&self) -> MsgModel {
        MsgModel {
            agent_id: self.agent_id@,
            message_id: self.message_id@,
            payload: self.payload@,
            estimated_cost_tokens: self.estimated_cost_tokens,
            budget_tokens: self.budget_tokens,
            deadline_ms: self.deadline_ms,
            task_graph_id: self.task_graph_id@,
            dependencies: self.dependencies.deep_view(),
            priority: self.priority,
            dedup_context: self.dedup_context@,
            trace_id: self.trace_id@,
            metadata: pairs_view(self.metadata@),
            timestamp: self.timestamp,
        }
    }
}

/// Characters an agent identifier may hold: lower-case ASCII letters,
/// digits, underscore and hyphen.
pub open spec fn valid_agent_char(c: char) -> bool {
    (97 <= c as int <= 122) || (48 <= c as int <= 57) || c as int == 95 || c as int == 45
}

pub open spec fn valid_agent_id(s: Seq<char>) -> bool {
    s.len() > 0 && forall|i: int| 0 <= i < s.len() ==> valid_agent_char(#[trigger] s[i])
}

/// All validation rules together, judged at wall-clock time `now_ms`.
pub open spec fn spec_message_valid(m: MsgModel, now_ms: i64) -> bool {
    &&& valid_agent_id(m.agent_id)
    &&& m.payload.len() <= MAX_PAYLOAD_SIZE
    &&& m.budget_tokens > 0
    &&& !(m.deadline_ms != 0 && m.deadline_ms < now_ms)
    &&& 0 <= m.priority <= 100
}

/// Relies on `uuid::Uuid::now_v7` and its hyphenated text form: a fresh
/// identifier rendered as 36 characters.
#[verifier::external_body]
fn fresh_request_id() -> (r: String)
    ensures
        r@.len() == 36,
{
    uuid::Uuid::now_v7().to_string()
}

impl AiMessage {
    /// Build a message with fresh identifiers; `now_ns` stamps the creation
    /// time. Priority starts at the default of 50.
    pub fn new(agent_id: String, payload: Vec<u8>, budget_tokens: u64, deadline_ms: i64, now_ns: i64) -> (r:
        Self)
        ensures
            r.agent_id == agent_id,
            r.payload == payload,
            r.budget_tokens == budget_tokens,
            r.deadline_ms == deadline_ms,
            r.timestamp == now_ns,
            r.estimated_cost_tokens == 0,
            r.priority == 50,
            r.message_id@.len() == 36,
            r.trace_id@.len() == 36,
            r.task_graph_id@.len() == 0,
            r.dependencies@.len() == 0,
            r.dedup_context@.len() == 0,
            r.metadata@.len() == 0,
    {
        AiMessage {
            agent_id,
            message_id: fresh_request_id(),
            payload,
            estimated_cost_tokens: 0,
            budget_tokens,
            deadline_ms,
            task_graph_id: String::new(),
            dependencies: Vec::new(),
            priority: 50,
            dedup_context: String::new(),
            trace_id: fresh_request_id(),
            metadata: Vec::new(),
            timestamp: now_ns,
        }
    }

    /// Check every validation rule; report the first broken one.
    pub fn validate(&self, now_ms: i64) -> (r: Result<(), ProtocolError>)
        ensures
            r is Ok <==> spec_message_valid(self@, now_ms),
            !valid_agent_id(self@.agent_id) ==> (r matches Err(e) && e matches
                ProtocolError::InvalidAgentId(_)),
            valid_agent_id(self@.agent_id) && self@.payload.len() > MAX_PAYLOAD_SIZE ==> (
            r matches Err(e) && e matches ProtocolError::MessageTooLarge { size, max } && size
                == self@.payload.len() && max == MAX_PAYLOAD_SIZE),
            valid_agent_id(self@.agent_id) && self@.payload.len() <= MAX_PAYLOAD_SIZE
                && self@.budget_tokens == 0 ==> (r matches Err(e) && e matches
            ProtocolError::ValidationFailed(_)),
            valid_agent_id(self@.agent_id) && self@.payload.len() <= MAX_PAYLOAD_SIZE
                && self@.budget_tokens > 0 && self@.deadline_ms != 0 && self@.deadline_ms < now_ms
                ==> (r matches Err(e) && e matches ProtocolError::DeadlineExpired {
                deadline_ms,
                current_ms,
            } && deadline_ms == self@.deadline_ms && current_ms == now_ms),
            valid_agent_id(self@.agent_id) && self@.payload.len() <= MAX_PAYLOAD_SIZE
                && self@.budget_tokens > 0 && !(self@.deadline_ms != 0 && self@.deadline_ms
                < now_ms) && !(0 <= self@.priority <= 100) ==> (r matches Err(e) && e matches
            ProtocolError::ValidationFailed(_)),
    {
        if self.agent_id.as_str().unicode_len() == 0 {
            return Err(
                ProtocolError::InvalidAgentId(String::from_str("agent id cannot be empty")),
            );
        }
        let s = self.agent_id.as_str();
        let n = s.unicode_len();
        let mut i: usize = 0;
        while i < n
            invariant
                n == s@.len(),
                s@ == self.agent_id@,
                i <= n,
                forall|j: int| 0 <= j < i ==> valid_agent_char(#[trigger] s@[j]),
            decreases n - i,
        {
            let c = s.get_char(i);
            let u = c as u32;
            if !((97 <= u && u <= 122) || (48 <= u && u <= 57) || u == 95 || u == 45) {
                return Err(
                    ProtocolError::InvalidAgentId(
                        String::from_str("agent id may hold only lower-case letters, digits, underscore and hyphen"),
                    ),
                );
            }
            i += 1;
        }
        if self.payload.len() > MAX_PAYLOAD_SIZE {
            return Err(
                ProtocolError::MessageTooLarge { size: self.payload.len(), max: MAX_PAYLOAD_SIZE },
            );
        }
        if self.budget_tokens == 0 {
            return Err(
                ProtocolError::ValidationFailed(String::from_str("budget_tokens must be positive")),
            );
        }
        if self.deadline_ms != 0 && self.deadline_ms < now_ms {
            return Err(
                ProtocolError::DeadlineExpired { deadline_ms: self.deadline_ms, current_ms: now_ms },
            );
        }
        if self.priority < 0 || self.priority > 100 {
            return Err(
                ProtocolError::ValidationFailed(String::from_str("priority must be between 0 and 100")),
            );
        }
        Ok(())
    }

    /// Whether an estimated cost would exceed the advisory budget the
    /// message itself carries.
    pub fn is_over_budget(&self, estimated_cost: u64) -> (r: bool)
        ensures
            r == (estimated_cost > self.budget_tokens),
    {
        estimated_cost > self.budget_tokens
    }

    /// Whether the deadline has passed. A deadline of zero means unset and
    /// never expires.
    pub fn is_expired(&self, now_ms: i64) -> (r: bool)
        ensures
            r == (self.deadline_ms != 0 && self.deadline_ms < now_ms),
    {
        if self.deadline_ms == 0 {
            return false;
        }
        self.deadline_ms < now_ms
    }

    /// Age of the message in milliseconds at time `now_ns`.
    pub fn age_ms(&self, now_ns: i64) -> (r: u64)
        requires
            0 <= self.timestamp <= now_ns,
        ensures
            r == (now_ns - self.timestamp) / 1000000,
    {
        ((now_ns - self.timestamp) / 1000000) as u64
    }
}

fn clone_pairs(v: &Vec<(String, String)>) -> (r: Vec<(String, String)>)
    ensures
        r@ == v@,
{
    let mut out: Vec<(String, String)> = Vec::new();
    let n = v.len();
    let mut i: usize = 0;
    while i < n
        invariant
            n == v@.len(),
            i <= n,
            out@ == v@.take(i as int),
        decreases n - i,
    {
        out.push((v[i].0.clone(), v[i].1.clone()));
        proof {
            assert(out@ =~= v@.take(i + 1));
        }
        i += 1;
    }
    proof {
        assert(v@.take(n as int) =~= v@);
    }
    out
}

/// Copy a message, preserving its mathematical content.
pub fn clone_message(m: &AiMessage) -> (r: AiMessage)
    ensures
        r@ == m@,
{
    AiMessage {
        agent_id: m.agent_id.clone(),
        message_id: m.message_id.clone(),
        payload: vstd::slice::slice_to_vec(m.payload.as_slice()),
        estimated_cost_tokens: m.estimated_cost_tokens,
        budget_tokens: m.budget_tokens,
        deadline_ms: m.deadline_ms,
        task_graph_id: m.task_graph_id.clone(),
        dependencies: crate::strutil::clone_string_vec(&m.dependencies),
        priority: m.priority,
        dedup_context: m.dedup_context.clone(),
        trace_id: m.trace_id.clone(),
        metadata: clone_pairs(&m.metadata),
        timestamp: m.timestamp,
    }
}

// ---------------------------------------------------------------------------
// Wire format
// ---------------------------------------------------------------------------
/// The byte encoding of a message: a fixed-order concatenation of
/// self-delimiting fields.
pub open spec fn spec_encode(m: MsgModel) -> Seq<u8> {
    enc_string(m.agent_id) + enc_string(m.message_id) + enc_bytes(m.payload) + enc_u64(
        m.estimated_cost_tokens,
    ) + enc_u64(m.budget_tokens) + enc_i64(m.deadline_ms) + enc_string(m.task_graph_id)
        + enc_string_list(m.dependencies) + enc_i32(m.priority) + enc_string(m.dedup_context)
        + enc_string(m.trace_id) + enc_pair_list(m.metadata) + enc_i64(m.timestamp)
}

/// The decoder: reads the same fields in order and accepts no trailing bytes.
pub open spec fn spec_decode(data: Seq<u8>) -> Option<MsgModel> {
    match dec_string(data) {
        Some((agent_id, r1)) => match dec_string(r1) {
            Some((message_id, r2)) => match dec_bytes(r2) {
                Some((payload, r3)) => match dec_u64(r3) {
                    Some((estimated_cost_tokens, r4)) => match dec_u64(r4) {
                        Some((budget_tokens, r5)) => match dec_i64(r5) {
                            Some((deadline_ms, r6)) => match dec_string(r6) {
                                Some((task_graph_id, r7)) => match dec_string_list(r7) {
                                    Some((dependencies, r8)) => match dec_i32(r8) {
                                        Some((priority, r9)) => match dec_string(r9) {
                                            Some((dedup_context, r10)) => match dec_string(r10) {
                                                Some((trace_id, r11)) => match dec_pair_list(r11) {
                                                    Some((metadata, r12)) => match dec_i64(r12) {
                                                        Some((timestamp, r13)) => if r13.len()
                                                            == 0 {
                                                            Some(
                                                                MsgModel {
                                                                    agent_id,
                                                                    message_id,
                                                                    payload,
                                                                    estimated_cost_tokens,
                                                                    budget_tokens,
                                                                    deadline_ms,
                                                                    task_graph_id,
                                                                    dependencies,
                                                                    priority,
                                                                    dedup_context,
                                                                    trace_id,
                                                                    metadata,
                                                                    timestamp,
                                                                },
                                                            )
                                                        } else {
                                                            None
                                                        },
                                                        None => None,
                                                    },
                                                    None => None,
                                                },
                                                None => None,
                                            },
                                            None => None,
                                        },
                                        None => None,
                                    },
                                    None => None,
                                },
                                None => None,
                            },
                            None => None,
                        },
                        None => None,
                    },
                    None => None,
                },
                None => None,
            },
            None => None,
        },
        None => None,
    }
}

/// Every variable-length part of the model fits its length prefix. Holds of
/// the view of every executable message, whose parts fit in memory.
pub open spec fn model_bounded(m: MsgModel) -> bool {
    &&& encode_utf8(m.agent_id).len() <= u64::MAX
    &&& encode_utf8(m.message_id).len() <= u64::MAX
    &&& m.payload.len() <= u64::MAX
    &&& encode_utf8(m.task_graph_id).len() <= u64::MAX
    &&& m.dependencies.len() <= u64::MAX
    &&& string_list_bounded(m.dependencies)
    &&& encode_utf8(m.dedup_context).len() <= u64::MAX
    &&& encode_utf8(m.trace_id).len() <= u64::MAX
    &&& m.metadata.len() <= u64::MAX
    &&& pair_list_bounded(m.metadata)
}

/// Decoding undoes encoding: the round trip of the wire format.
#[verifier::rlimit(100)]
pub proof fn lemma_decode_encode(m: MsgModel)
    requires
        model_bounded(m),
    ensures
        spec_decode(spec_encode(m)) == Some(m),
{
    let e13 = enc_i64(m.timestamp) + Seq::<u8>::empty();
    let e12 = enc_pair_list(m.metadata) + e13;
    let e11 = enc_string(m.trace_id) + e12;
    let e10 = enc_string(m.dedup_context) + e11;
    let e9 = enc_i32(m.priority) + e10;
    let e8 = enc_string_list(m.dependencies) + e9;
    let e7 = enc_string(m.task_graph_id) + e8;
    let e6 = enc_i64(m.deadline_ms) + e7;
    let e5 = enc_u64(m.budget_tokens) + e6;
    let e4 = enc_u64(m.estimated_cost_tokens) + e5;
    let e3 = enc_bytes(m.payload) + e4;
    let e2 = enc_string(m.message_id) + e3;
    let e1 = enc_string(m.agent_id) + e2;
    assert(spec_encode(m) =~= e1);
    lemma_dec_enc_string(m.agent_id, e2);
    lemma_dec_enc_string(m.message_id, e3);
    lemma_dec_enc_bytes(m.payload, e4);
    lemma_dec_enc_u64(m.estimated_cost_tokens, e5);
    lemma_dec_enc_u64(m.budget_tokens, e6);
    lemma_dec_enc_i64(m.deadline_ms, e7);
    lemma_dec_enc_string(m.task_graph_id, e8);
    lemma_dec_enc_string_list(m.dependencies, e9);
    lemma_dec_enc_i32(m.priority, e10);
    lemma_dec_enc_string(m.dedup_context, e11);
    lemma_dec_enc_string(m.trace_id, e12);
    lemma_dec_enc_pair_list(m.metadata, e13);
    lemma_dec_enc_i64(m.timestamp, Seq::<u8>::empty());
}

impl AiMessage {
    /// Encode the message for the wire.
    pub fn serialize(&self) -> (r: Result<Vec<u8>, ProtocolError>)
        ensures
            r matches Ok(v) && v@ == spec_encode(self@),
    {
        let mut out: Vec<u8> = Vec::new();
        append_string(&mut out, self.agent_id.as_str());
        append_string(&mut out, self.message_id.as_str());
        append_bytes(&mut out, self.payload.as_slice());
        append_u64(&mut out, self.estimated_cost_tokens);
        append_u64(&mut out, self.budget_tokens);
        append_i64(&mut out, self.deadline_ms);
        append_string(&mut out, self.task_graph_id.as_str());
        append_string_list(&mut out, &self.dependencies);
        append_i32(&mut out, self.priority);
        append_string(&mut out, self.dedup_context.as_str());
        append_string(&mut out, self.trace_id.as_str());
        append_pair_list(&mut out, &self.metadata);
        append_i64(&mut out, self.timestamp);
        proof {
            assert(out@ =~= spec_encode(self@));
        }
        Ok(out)
    }

    /// Decode a message from the wire; rejects anything the encoder cannot
    /// have produced, including trailing bytes.
    pub fn deserialize(data: &[u8]) -> (r: Result<Self, ProtocolError>)
        ensures
            match spec_decode(data@) {
                Some(m) => (r matches Ok(msg) && msg@ == m),
                None => r is Err,
            },
    {
        let v: Vec<u8> = vstd::slice::slice_to_vec(data);
        proof {
            assert(v@.skip(0) =~= data@);
        }
        let (agent_id, i1) = match read_string(&v, 0) {
            Some(p) => p,
            None => { return Err(Self::malformed()) },
        };
        let (message_id, i2) = match read_string(&v, i1) {
            Some(p) => p,
            None => { return Err(Self::malformed()) },
        };
        let (payload, i3) = match read_bytes(&v, i2) {
            Some(p) => p,
            None => { return Err(Self::malformed()) },
        };
        let (estimated_cost_tokens, i4) = match read_u64(&v, i3) {
            Some(p) => p,
            None => { return Err(Self::malformed()) },
        };
        let (budget_tokens, i5) = match read_u64(&v, i4) {
            Some(p) => p,
            None => { return Err(Self::malformed()) },
        };
        let (deadline_ms, i6) = match read_i64(&v, i5) {
            Some(p) => p,
            None => { return Err(Self::malformed()) },
        };
        let (task_graph_id, i7) = match read_string(&v, i6) {
            Some(p) => p,
            None => { return Err(Self::malformed()) },
        };
        let (dependencies, i8) = match read_string_list(&v, i7) {
            Some(p) => p,
            None => { return Err(Self::malformed()) },
        };
        let (priority, i9) = match read_i32(&v, i8) {
            Some(p) => p,
            None => { return Err(Self::malformed()) },
        };
        let (dedup_context, i10) = match read_string(&v, i9) {
            Some(p) => p,
            None => { return Err(Self::malformed()) },
        };
        let (trace_id, i11) = match read_string(&v, i10) {
            Some(p) => p,
            None => { return Err(Self::malformed()) },
        };
        let (metadata, i12) = match read_pair_list(&v, i11) {
            Some(p) => p,
            None => { return Err(Self::malformed()) },
        };
        let (timestamp, i13) = match read_i64(&v, i12) {
            Some(p) => p,
            None => { return Err(Self::malformed()) },
        };
        if i13 != v.len() {
            return Err(Self::malformed());
        }
        let msg = AiMessage {
            agent_id,
            message_id,
            payload,
            estimated_cost_tokens,
            budget_tokens,
            deadline_ms,
            task_graph_id,
            dependencies,
            priority,
            dedup_context,
            trace_id,
            metadata,
            timestamp,
        };
        proof {
            assert(v@.skip(i13 as int).len() == 0);
            assert(v@.skip(i13 as int) =~= Seq::<u8>::empty());
        }
        Ok(msg)
    }

    fn malformed() -> (r: ProtocolError)
        ensures
            r matches ProtocolError::DeserializationFailed(_),
    {
        ProtocolError::DeserializationFailed(String::from_str("malformed message bytes"))
    }
}

} // verus!
