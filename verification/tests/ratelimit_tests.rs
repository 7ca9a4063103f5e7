//! Token buckets, sliding windows, and the composed limiter.

use aimesh::ratelimit::RateLimitConfig;
use aimesh::ratelimit::RateLimitError;
use aimesh::ratelimit::RateLimiter;
use aimesh::ratelimit::TokenBucket;
use std::time::SystemTime;
use std::time::UNIX_EPOCH;

fn now_ms() -> i64 {
    SystemTime::now().duration_since(UNIX_EPOCH).unwrap().as_millis() as i64
}

#[test]
fn test_token_bucket() {
    let now = now_ms();
    let mut bucket = TokenBucket::new(10, 5, now);

    assert!(bucket.try_acquire(5, now));
    assert!(bucket.try_acquire(5, now));

    assert!(!bucket.try_acquire(1, now));
}

#[test]
fn test_token_bucket_refills() {
    let now = now_ms();
    let mut bucket = TokenBucket::new(10, 5, now);
    assert!(bucket.try_acquire(10, now));
    assert!(!bucket.try_acquire(1, now));
    // Two seconds at five tokens per second earn ten tokens back.
    assert!(bucket.try_acquire(10, now + 2000));
}

#[test]
fn test_rate_limiter() {
    let config = RateLimitConfig {
        requests_per_second: 10,
        burst_capacity: 20,
        window_secs: 1,
        adaptive: false,
    };

    let now = now_ms();
    let mut limiter = RateLimiter::new(config, now);

    for _ in 0..20 {
        assert!(limiter.acquire("test-key", now).is_ok());
    }

    assert!(limiter.acquire("test-key", now).is_err());
}

#[test]
fn test_rate_limit_error_fields() {
    let config = RateLimitConfig {
        requests_per_second: 10,
        burst_capacity: 20,
        window_secs: 1,
        adaptive: false,
    };
    let now = now_ms();
    let mut limiter = RateLimiter::new(config, now);
    for _ in 0..20 {
        assert!(limiter.acquire("k", now).is_ok());
    }
    match limiter.acquire("k", now) {
        Err(RateLimitError::LimitExceeded { key, limit, window_secs }) => {
            assert_eq!(key, "k");
            assert_eq!(limit, 10);
            assert_eq!(window_secs, 1);
        }
        other => panic!("expected LimitExceeded, got {:?}", other),
    }
}

#[test]
fn test_usage_tracking() {
    let config = RateLimitConfig::default();
    let now = now_ms();
    let mut limiter = RateLimiter::new(config, now);

    limiter.acquire("key1", now).unwrap();
    limiter.acquire("key1", now).unwrap();

    let usage = limiter.get_usage("key1", now);
    assert_eq!(usage.window_count, 2);
}

#[test]
fn test_check_is_advisory() {
    let config = RateLimitConfig::default();
    let now = now_ms();
    let mut limiter = RateLimiter::new(config, now);
    assert!(limiter.check("fresh", now));
    limiter.acquire("fresh", now).unwrap();
    // The check consumed nothing.
    let usage = limiter.get_usage("fresh", now);
    assert_eq!(usage.window_count, 1);
}

#[test]
fn test_reset_forgets_key() {
    let config = RateLimitConfig {
        requests_per_second: 10,
        burst_capacity: 2,
        window_secs: 1,
        adaptive: false,
    };
    let now = now_ms();
    let mut limiter = RateLimiter::new(config, now);
    assert!(limiter.acquire("k", now).is_ok());
    assert!(limiter.acquire("k", now).is_ok());
    assert!(limiter.acquire("k", now).is_err());
    limiter.reset("k");
    assert!(limiter.acquire("k", now).is_ok());
}

#[test]
fn test_utilization_percent() {
    let config = RateLimitConfig::default();
    let now = now_ms();
    let mut limiter = RateLimiter::new(config, now);
    for _ in 0..30 {
        limiter.acquire("busy", now).unwrap();
    }
    let usage = limiter.get_usage("busy", now);
    // Thirty of the six-thousand steady-state slots.
    assert_eq!(usage.window_limit, 6000);
    assert_eq!(usage.utilization_percent(), 0);
}
