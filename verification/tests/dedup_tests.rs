//! Fingerprinting and the deduplication cache.

use aimesh::dedup::SemanticDeduplicator;
use aimesh::protocol::AiMessage;
use std::time::SystemTime;
use std::time::UNIX_EPOCH;

fn now_ns() -> i64 {
    SystemTime::now().duration_since(UNIX_EPOCH).unwrap().as_nanos() as i64
}

fn now_secs() -> i64 {
    SystemTime::now().duration_since(UNIX_EPOCH).unwrap().as_secs() as i64
}

#[test]
fn test_compute_hash() {
    let dedup = SemanticDeduplicator::new(3600);

    let msg1 = AiMessage::new("agent-1".into(), b"Hello".to_vec(), 100, i64::MAX, now_ns());
    let msg2 = AiMessage::new("agent-2".into(), b"Hello".to_vec(), 100, i64::MAX, now_ns());

    assert_eq!(dedup.compute_hash(&msg1), dedup.compute_hash(&msg2));
}

#[test]
fn test_duplicate_detection() {
    let mut dedup = SemanticDeduplicator::new(3600);

    let msg = AiMessage::new("agent-1".into(), b"Test".to_vec(), 100, i64::MAX, now_ns());

    assert!(dedup.check_duplicate(&msg, now_secs()).is_none());

    dedup.record(&msg, b"cached response".to_vec(), now_secs());

    let result = dedup.check_duplicate(&msg, now_secs());
    assert!(result.is_some());
    assert_eq!(result.unwrap(), b"cached response".to_vec());
}

#[test]
fn test_fingerprint_is_hex_digest() {
    let dedup = SemanticDeduplicator::new(3600);
    let msg = AiMessage::new("agent-1".into(), b"payload".to_vec(), 100, i64::MAX, now_ns());
    let hash = dedup.compute_hash(&msg);
    assert_eq!(hash.len(), 64);
    assert!(hash.chars().all(|c| c.is_ascii_hexdigit() && !c.is_ascii_uppercase()));
    assert_ne!(hash.as_bytes(), b"payload");
}

#[test]
fn test_context_changes_fingerprint() {
    let dedup = SemanticDeduplicator::new(3600);
    let mut a = AiMessage::new("agent-1".into(), b"same".to_vec(), 100, i64::MAX, now_ns());
    let mut b = AiMessage::new("agent-1".into(), b"same".to_vec(), 100, i64::MAX, now_ns());
    a.dedup_context = "one".into();
    b.dedup_context = "two".into();
    assert_ne!(dedup.compute_hash(&a), dedup.compute_hash(&b));
}

#[test]
fn test_entry_expires_after_ttl() {
    let mut dedup = SemanticDeduplicator::new(10);
    let msg = AiMessage::new("agent-1".into(), b"old".to_vec(), 100, i64::MAX, now_ns());
    let t = now_secs();
    dedup.record(&msg, b"stale".to_vec(), t);

    // Within the window the entry answers.
    assert!(dedup.check_duplicate(&msg, t + 9).is_some());
    // At the window's edge it no longer does, and is evicted.
    assert!(dedup.check_duplicate(&msg, t + 10).is_none());
    assert_eq!(dedup.cache_size(), 0);
}

#[test]
fn test_cleanup_counts_expired() {
    let mut dedup = SemanticDeduplicator::new(10);
    let t = now_secs();
    let old_msg = AiMessage::new("a".into(), b"one".to_vec(), 100, i64::MAX, now_ns());
    let new_msg = AiMessage::new("a".into(), b"two".to_vec(), 100, i64::MAX, now_ns());
    dedup.record(&old_msg, b"1".to_vec(), t - 60);
    dedup.record(&new_msg, b"2".to_vec(), t);

    let removed = dedup.cleanup(t);
    assert_eq!(removed, 1);
    assert_eq!(dedup.cache_size(), 1);
    assert!(dedup.check_duplicate(&new_msg, t).is_some());
    assert!(dedup.check_duplicate(&old_msg, t).is_none());
}

#[test]
fn test_fingerprint_matches_direct_digest() {
    let dedup = SemanticDeduplicator::new(3600);
    let mut msg = AiMessage::new("agent".into(), b"abc".to_vec(), 1, i64::MAX, now_ns());
    msg.dedup_context = "ctx".into();
    let mut joined = b"abc".to_vec();
    joined.extend_from_slice(b"ctx");
    let expected = hex::encode(blake3::hash(&joined).as_bytes());
    assert_eq!(dedup.compute_hash(&msg), expected);
}
