//! Message construction, validation, and the wire codec.

use aimesh::protocol::AiMessage;
use aimesh::protocol::MAX_PAYLOAD_SIZE;
use aimesh::protocol::ProtocolError;
use aimesh::protocol::RoutingDecision;
use std::time::SystemTime;
use std::time::UNIX_EPOCH;

fn now_ns() -> i64 {
    SystemTime::now().duration_since(UNIX_EPOCH).unwrap().as_nanos() as i64
}

fn now_ms() -> i64 {
    SystemTime::now().duration_since(UNIX_EPOCH).unwrap().as_millis() as i64
}

#[test]
fn test_message_serialization_roundtrip() {
    let msg = AiMessage::new(
        "test-agent".to_string(),
        b"Hello, World!".to_vec(),
        1000,
        i64::MAX,
        now_ns(),
    );

    let serialized = msg.serialize().unwrap();
    let deserialized = AiMessage::deserialize(&serialized).unwrap();

    assert_eq!(msg.agent_id, deserialized.agent_id);
    assert_eq!(msg.payload, deserialized.payload);
    assert_eq!(msg.budget_tokens, deserialized.budget_tokens);
}

#[test]
fn mod_test_message_validation() {
    let valid_msg = AiMessage::new(
        "valid-agent-123".to_string(),
        b"payload".to_vec(),
        100,
        i64::MAX,
        now_ns(),
    );
    assert!(valid_msg.validate(now_ms()).is_ok());

    let invalid_agent = AiMessage::new(
        "INVALID_AGENT".to_string(),
        b"payload".to_vec(),
        100,
        i64::MAX,
        now_ns(),
    );
    assert!(invalid_agent.validate(now_ms()).is_err());
}

#[test]
fn test_routing_decision() {
    let decision = RoutingDecision::new(
        "msg-123".to_string(),
        "endpoint-a".to_string(),
        5,
        1,
        "Lowest cost".to_string(),
    )
    .with_fallback("endpoint-b".to_string())
    .with_score(400, 300, 300);

    assert_eq!(decision.fallback_endpoints.len(), 1);
    assert!(decision.score_breakdown.is_some());
}

#[test]
fn test_roundtrip_with_all_fields() {
    let mut msg = AiMessage::new(
        "agent-7".to_string(),
        vec![0u8, 1, 2, 255],
        42,
        i64::MAX,
        now_ns(),
    );
    msg.estimated_cost_tokens = 17;
    msg.priority = 93;
    msg.dedup_context = "ctx".to_string();
    msg.task_graph_id = "graph-1".to_string();
    msg.dependencies = vec!["step-a".to_string(), "step-b".to_string()];
    msg.metadata = vec![("region".to_string(), "east".to_string())];

    let bytes = msg.serialize().unwrap();
    let back = AiMessage::deserialize(&bytes).unwrap();
    assert_eq!(back.agent_id, msg.agent_id);
    assert_eq!(back.message_id, msg.message_id);
    assert_eq!(back.payload, msg.payload);
    assert_eq!(back.estimated_cost_tokens, 17);
    assert_eq!(back.budget_tokens, 42);
    assert_eq!(back.deadline_ms, i64::MAX);
    assert_eq!(back.priority, 93);
    assert_eq!(back.dedup_context, "ctx");
    assert_eq!(back.task_graph_id, "graph-1");
    assert_eq!(back.dependencies, msg.dependencies);
    assert_eq!(back.metadata, msg.metadata);
    assert_eq!(back.timestamp, msg.timestamp);
}

#[test]
fn test_deserialize_rejects_garbage() {
    assert!(AiMessage::deserialize(&[1, 2, 3]).is_err());
    let msg = AiMessage::new("a".to_string(), b"x".to_vec(), 1, i64::MAX, now_ns());
    let mut bytes = msg.serialize().unwrap();
    bytes.push(0);
    assert!(AiMessage::deserialize(&bytes).is_err());
}

#[test]
fn test_fresh_ids_have_uuid_shape() {
    let msg = AiMessage::new("a".to_string(), vec![], 1, i64::MAX, now_ns());
    assert_eq!(msg.message_id.len(), 36);
    assert_eq!(msg.trace_id.len(), 36);
}

#[test]
fn test_payload_size_boundary() {
    let at_cap = AiMessage::new(
        "a".to_string(),
        vec![0u8; MAX_PAYLOAD_SIZE],
        1,
        i64::MAX,
        now_ns(),
    );
    assert!(at_cap.validate(now_ms()).is_ok());

    let over_cap = AiMessage::new(
        "a".to_string(),
        vec![0u8; MAX_PAYLOAD_SIZE + 1],
        1,
        i64::MAX,
        now_ns(),
    );
    match over_cap.validate(now_ms()) {
        Err(ProtocolError::MessageTooLarge { size, max }) => {
            assert_eq!(size, MAX_PAYLOAD_SIZE + 1);
            assert_eq!(max, MAX_PAYLOAD_SIZE);
        }
        other => panic!("expected MessageTooLarge, got {:?}", other),
    }
}

#[test]
fn test_priority_boundaries() {
    let mut msg = AiMessage::new("a".to_string(), vec![], 1, i64::MAX, now_ns());
    msg.priority = 0;
    assert!(msg.validate(now_ms()).is_ok());
    msg.priority = 100;
    assert!(msg.validate(now_ms()).is_ok());
    msg.priority = -1;
    assert!(msg.validate(now_ms()).is_err());
    msg.priority = 101;
    assert!(msg.validate(now_ms()).is_err());
}

#[test]
fn test_deadline_boundaries() {
    let now = now_ms();
    let past = AiMessage::new("a".to_string(), vec![], 1, now - 1, now_ns());
    match past.validate(now) {
        Err(ProtocolError::DeadlineExpired { deadline_ms, current_ms }) => {
            assert_eq!(deadline_ms, now - 1);
            assert_eq!(current_ms, now);
        }
        other => panic!("expected DeadlineExpired, got {:?}", other),
    }
    let open = AiMessage::new("a".to_string(), vec![], 1, i64::MAX, now_ns());
    assert!(open.validate(now).is_ok());
    let unset = AiMessage::new("a".to_string(), vec![], 1, 0, now_ns());
    assert!(unset.validate(now).is_ok());
}

#[test]
fn test_zero_budget_rejected() {
    let msg = AiMessage::new("a".to_string(), vec![], 0, i64::MAX, now_ns());
    assert!(matches!(
        msg.validate(now_ms()),
        Err(ProtocolError::ValidationFailed(_))
    ));
}

#[test]
fn test_frame_roundtrip() {
    let payload = b"framed bytes".to_vec();
    let mut wire = aimesh::transport::encode_frame(&payload);
    wire.extend_from_slice(b"trailing");
    let (decoded, consumed) = aimesh::transport::decode_frame(&wire).unwrap();
    assert_eq!(decoded, payload);
    assert_eq!(consumed, 4 + payload.len());
    assert!(aimesh::transport::decode_frame(&vec![0, 0, 0, 9, 1]).is_none());
}

#[test]
fn test_deserialize_rejects_invalid_utf8() {
    let msg = AiMessage::new("ab".to_string(), b"x".to_vec(), 1, i64::MAX, now_ns());
    let mut bytes = msg.serialize().unwrap();
    // The first field is the agent identifier: an eight-byte length, then
    // its bytes. 0xFF is never valid UTF-8.
    bytes[8] = 0xFF;
    assert!(AiMessage::deserialize(&bytes).is_err());
}
