//! Admission-controller behavior: token budgets, refill over time,
//! per-key isolation, idle-bucket cleanup, and counter readings. Time
//! is passed in milliseconds, so every scenario is deterministic.

use runes_sdk::rate_limit::{get_client_ip, RateLimitConfig, RateLimitMetrics, RateLimiter};

fn config(window_ms: u64, max_requests: u32, burst_size: u32) -> RateLimitConfig {
    RateLimitConfig { window_size_ms: window_ms, max_requests, burst_size }
}

#[test]
fn test_basic_rate_limiting() {
    let mut limiter = RateLimiter::new(config(1000, 5, 2), RateLimitMetrics::new());
    let key = "test_client";

    for _ in 0..5 {
        assert!(limiter.check_rate_limit(key, 1, 0).is_ok());
    }

    assert!(limiter.check_rate_limit(key, 1, 0).is_err());

    // After a full window the budget is back.
    assert!(limiter.check_rate_limit(key, 1, 1000).is_ok());
}

#[test]
fn test_burst_handling() {
    let mut limiter = RateLimiter::new(config(1000, 10, 3), RateLimitMetrics::new());
    let key = "test_burst";

    for _ in 0..3 {
        assert!(limiter.check_rate_limit(key, 3, 0).is_ok());
    }

    // Nine tokens are spent; a fourth batch of three exceeds the budget.
    assert!(limiter.check_rate_limit(key, 3, 0).is_err());

    // A single-cost request still fits.
    assert!(limiter.check_rate_limit(key, 1, 0).is_ok());
}

#[test]
fn test_multiple_clients() {
    let mut limiter = RateLimiter::new(config(1000, 5, 2), RateLimitMetrics::new());
    let client1 = "client1";
    let client2 = "client2";

    for _ in 0..5 {
        assert!(limiter.check_rate_limit(client1, 1, 0).is_ok());
        assert!(limiter.check_rate_limit(client2, 1, 0).is_ok());
    }

    assert!(limiter.check_rate_limit(client1, 1, 0).is_err());
    assert!(limiter.check_rate_limit(client2, 1, 0).is_err());

    assert!(limiter.check_rate_limit(client1, 1, 1000).is_ok());
    assert!(limiter.check_rate_limit(client2, 1, 1000).is_ok());
}

#[test]
fn test_cleanup() {
    let mut limiter = RateLimiter::new(config(1000, 5, 2), RateLimitMetrics::new());

    for i in 0..3 {
        let key = format!("client_{}", i);
        assert!(limiter.check_rate_limit(&key, 1, 0).is_ok());
    }

    assert_eq!(limiter.get_metrics().current_buckets, 3);

    // Nothing is 100 ms idle yet.
    limiter.cleanup_old_buckets(100, 0);
    assert_eq!(limiter.get_metrics().current_buckets, 3);

    // 200 ms later every bucket is past the idle age.
    limiter.cleanup_old_buckets(100, 200);
    assert_eq!(limiter.get_metrics().current_buckets, 0);
}

#[test]
fn test_metrics() {
    let mut limiter = RateLimiter::new(config(1000, 2, 1), RateLimitMetrics::new());
    let key = "test_metrics";

    assert!(limiter.check_rate_limit(key, 1, 0).is_ok());
    assert!(limiter.check_rate_limit(key, 1, 0).is_ok());
    assert!(limiter.check_rate_limit(key, 1, 0).is_err());

    let stats = limiter.get_metrics();
    assert_eq!(stats.allowed_requests, 2);
    assert_eq!(stats.rejected_requests, 1);
    assert_eq!(stats.current_buckets, 1);
}

#[test]
fn test_idle_accumulation_is_capped() {
    // However long a key stays idle, its budget never grows past the
    // configured maximum.
    let mut limiter = RateLimiter::new(config(1000, 5, 2), RateLimitMetrics::new());
    let key = "patient_client";

    assert!(limiter.check_rate_limit(key, 1, 0).is_ok());

    // A long idle period refills to the cap of 5, not beyond.
    for _ in 0..5 {
        assert!(limiter.check_rate_limit(key, 1, 60_000).is_ok());
    }
    assert!(limiter.check_rate_limit(key, 1, 60_000).is_err());
}

#[test]
fn test_partial_refill() {
    // Half a window refills half the budget.
    let mut limiter = RateLimiter::new(config(1000, 4, 1), RateLimitMetrics::new());
    let key = "halfway";

    for _ in 0..4 {
        assert!(limiter.check_rate_limit(key, 1, 0).is_ok());
    }
    assert!(limiter.check_rate_limit(key, 1, 0).is_err());

    // 500 ms refills 2 of 4 tokens.
    assert!(limiter.check_rate_limit(key, 2, 500).is_ok());
    assert!(limiter.check_rate_limit(key, 1, 500).is_err());
}

#[test]
fn test_client_ip_prefers_forwarded_chain() {
    assert_eq!(
        get_client_ip(Some("192.168.1.1, 10.0.0.1"), Some("10.9.9.9"), Some("127.0.0.1")),
        Some("192.168.1.1".to_string()),
    );
    assert_eq!(
        get_client_ip(Some("  192.168.1.2\t"), None, None),
        Some("192.168.1.2".to_string()),
    );
    assert_eq!(get_client_ip(Some(" , 10.0.0.1"), None, None), Some("".to_string()));
    assert_eq!(get_client_ip(None, Some("10.9.9.9"), Some("127.0.0.1")), Some("10.9.9.9".to_string()));
    assert_eq!(get_client_ip(None, None, Some("127.0.0.1")), Some("127.0.0.1".to_string()));
    assert_eq!(get_client_ip(None, None, None), None);
}

#[test]
fn test_cost_above_capacity_never_succeeds() {
    let mut limiter = RateLimiter::new(config(1000, 5, 2), RateLimitMetrics::new());
    assert!(limiter.check_rate_limit("greedy", 6, 0).is_err());
    assert!(limiter.check_rate_limit("greedy", 6, 1_000_000).is_err());
}
