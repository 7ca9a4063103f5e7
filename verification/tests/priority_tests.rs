//! Priority bands, deadline boosts, and the scheduler queue.

use aimesh::priority::PriorityLevel;
use aimesh::priority::PrioritizedMessage;
use aimesh::priority::PriorityQueue;
use aimesh::priority::PriorityQueueConfig;
use aimesh::protocol::AiMessage;
use std::time::SystemTime;
use std::time::UNIX_EPOCH;

fn now_ns() -> i64 {
    SystemTime::now().duration_since(UNIX_EPOCH).unwrap().as_nanos() as i64
}

fn now_ms() -> i64 {
    SystemTime::now().duration_since(UNIX_EPOCH).unwrap().as_millis() as i64
}

#[test]
fn test_priority_ordering() {
    let mut queue = PriorityQueue::new(PriorityQueueConfig::default());

    let mut low = AiMessage::new("agent".into(), b"low".to_vec(), 100, i64::MAX, now_ns());
    low.priority = 10;

    let mut high = AiMessage::new("agent".into(), b"high".to_vec(), 100, i64::MAX, now_ns());
    high.priority = 80;

    let mut normal = AiMessage::new("agent".into(), b"normal".to_vec(), 100, i64::MAX, now_ns());
    normal.priority = 50;

    queue.push(low, now_ns()).unwrap();
    queue.push(high.clone(), now_ns()).unwrap();
    queue.push(normal, now_ns()).unwrap();

    let first = queue.pop(now_ms()).unwrap();
    assert_eq!(first.message.payload, b"high");
    assert_eq!(first.priority_level, PriorityLevel::Critical);
}

#[test]
fn test_deadline_boost() {
    let now = now_ms();

    let mut urgent = AiMessage::new("agent".into(), b"urgent".to_vec(), 100, now + 500, now_ns());
    urgent.priority = 50;

    let mut normal = AiMessage::new("agent".into(), b"normal".to_vec(), 100, i64::MAX, now_ns());
    normal.priority = 50;

    let urgent_pm = PrioritizedMessage::new(urgent, now_ns());
    let normal_pm = PrioritizedMessage::new(normal, now_ns());

    assert!(urgent_pm.effective_priority(now) > normal_pm.effective_priority(now));
}

#[test]
fn test_queue_stats() {
    let mut queue = PriorityQueue::new(PriorityQueueConfig::default());

    for i in 0..10u8 {
        let mut msg = AiMessage::new("agent".into(), vec![i], 100, i64::MAX, now_ns());
        msg.priority = (i as i32) * 10;
        queue.push(msg, now_ns()).unwrap();
    }

    let stats = queue.stats(now_ms());
    assert_eq!(stats.total, 10);
}

#[test]
fn test_deadline_beats_equal_priority() {
    let now = now_ms();
    let mut queue = PriorityQueue::new(PriorityQueueConfig::default());

    let mut a = AiMessage::new("agent".into(), b"A".to_vec(), 100, i64::MAX, now_ns());
    a.priority = 50;
    let mut b = AiMessage::new("agent".into(), b"B".to_vec(), 100, now + 500, now_ns());
    b.priority = 50;

    queue.push(a, now_ns()).unwrap();
    queue.push(b, now_ns()).unwrap();

    let first = queue.pop(now).unwrap();
    assert_eq!(first.message.payload, b"B");
}

#[test]
fn test_pop_never_returns_expired() {
    let now = now_ms();
    let mut queue = PriorityQueue::new(PriorityQueueConfig::default());

    let mut stale = AiMessage::new("agent".into(), b"stale".to_vec(), 100, now - 1000, now_ns());
    stale.priority = 100;
    let mut live = AiMessage::new("agent".into(), b"live".to_vec(), 100, i64::MAX, now_ns());
    live.priority = 10;

    queue.push(stale, now_ns()).unwrap();
    queue.push(live, now_ns()).unwrap();

    let first = queue.pop(now).unwrap();
    assert_eq!(first.message.payload, b"live");
    assert!(queue.pop(now).is_none());
    assert!(queue.is_empty());
}

#[test]
fn test_queue_full() {
    let config = PriorityQueueConfig { max_size: 1, deadline_aware: true, drop_expired: true };
    let mut queue = PriorityQueue::new(config);
    let msg = AiMessage::new("agent".into(), b"x".to_vec(), 100, i64::MAX, now_ns());
    queue.push(msg.clone(), now_ns()).unwrap();
    assert!(queue.push(msg, now_ns()).is_err());
    assert_eq!(queue.len(), 1);
}

#[test]
fn test_unset_deadline_not_expired() {
    let msg = AiMessage::new("agent".into(), b"x".to_vec(), 100, 0, now_ns());
    let pm = PrioritizedMessage::new(msg, now_ns());
    assert!(!pm.is_expired(now_ms()));
    assert_eq!(pm.effective_priority(now_ms()), 1000);
}

#[test]
fn test_peek_leaves_queue() {
    let mut queue = PriorityQueue::new(PriorityQueueConfig::default());
    let msg = AiMessage::new("agent".into(), b"x".to_vec(), 100, i64::MAX, now_ns());
    queue.push(msg, now_ns()).unwrap();
    let peeked = queue.peek(now_ms()).unwrap();
    assert_eq!(peeked.message.payload, b"x");
    assert_eq!(queue.len(), 1);
}

#[test]
fn test_level_from_priority() {
    assert_eq!(PriorityLevel::from(10), PriorityLevel::Low);
    assert_eq!(PriorityLevel::from(50), PriorityLevel::Normal);
    assert_eq!(PriorityLevel::from(75), PriorityLevel::High);
    assert_eq!(PriorityLevel::from(80), PriorityLevel::Critical);
    assert_eq!(PriorityLevel::from(-3), PriorityLevel::Critical);
}
