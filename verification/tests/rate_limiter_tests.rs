//! The window rate counter, driven against a simulated counter store.

use ddos_protection::config::RateLimitConfig;
use ddos_protection::error::DdosError;
use ddos_protection::rate_limiter::{RateLimitMiddleware, RateLimiter};
use ddos_protection::str_map::StringMap;

fn stored_count(store: &StringMap<u64>, key: &str) -> u64 {
    match store.get(key) {
        Some(c) => *c,
        None => 0,
    }
}

#[test]
fn test_rate_limiter() {
    let config = RateLimitConfig { max_requests: 5, period_seconds: 10 };
    let rate_limiter = RateLimiter::new(config);
    let test_ip = "127.0.0.1";
    let mut store: StringMap<u64> = StringMap::new();

    // Reset any existing rate limit for this IP.
    let key = rate_limiter.reset_rate_limit(test_ip);
    store.remove(key.as_str());

    // Make requests up to the limit.
    for i in 0..5 {
        let count = stored_count(&store, key.as_str()) as u32;
        let update = rate_limiter.check_rate_limit(test_ip, count);
        assert!(update.is_ok(), "Request {} should be allowed", i);
        let update = update.unwrap();
        assert_eq!(
            update.set_expiry_seconds,
            if count == 0 { Some(10) } else { None },
            "only the request that opens the window sets the expiry"
        );
        let current = stored_count(&store, update.key.as_str());
        store.insert(update.key, current + 1);
    }

    // The next request should be rate limited.
    let count = stored_count(&store, key.as_str()) as u32;
    let result = rate_limiter.check_rate_limit(test_ip, count);
    assert!(result.is_err(), "Request should be rate limited");

    // Reset the rate limit.
    let key = rate_limiter.reset_rate_limit(test_ip);
    store.remove(key.as_str());

    // Make another request, which should be allowed.
    let count = stored_count(&store, key.as_str()) as u32;
    let result = rate_limiter.check_rate_limit(test_ip, count);
    assert!(result.is_ok(), "Request should be allowed after reset");
}

#[test]
fn rejection_reports_the_identity() {
    let rate_limiter = RateLimiter::new(RateLimitConfig { max_requests: 2, period_seconds: 60 });
    let result = rate_limiter.check_rate_limit("127.0.0.1", 2);
    assert!(matches!(result, Err(DdosError::RateLimitExceeded(ip)) if ip == "127.0.0.1"));
}

#[test]
fn rejected_attempt_leaves_counter_unchanged() {
    let rate_limiter = RateLimiter::new(RateLimitConfig { max_requests: 3, period_seconds: 10 });
    let ip = "192.0.2.4";
    let mut store: StringMap<u64> = StringMap::new();
    let key = rate_limiter.reset_rate_limit(ip);
    for _ in 0..3 {
        let count = stored_count(&store, key.as_str()) as u32;
        let update = rate_limiter.check_rate_limit(ip, count).unwrap();
        let current = stored_count(&store, update.key.as_str());
        store.insert(update.key, current + 1);
    }
    // The attempt that finds the counter full yields no store update,
    // so the stored count stays where it was.
    let count = stored_count(&store, key.as_str()) as u32;
    assert_eq!(count, 3);
    assert!(rate_limiter.check_rate_limit(ip, count).is_err());
    assert_eq!(stored_count(&store, key.as_str()), 3);
    let status = rate_limiter.get_rate_limit_status(ip, 3, 7, 100);
    assert_eq!(status.count, 3);
    assert_eq!(status.remaining, 0);
}

#[test]
fn status_reports_exact_values() {
    let rate_limiter = RateLimiter::new(RateLimitConfig { max_requests: 10, period_seconds: 60 });
    let status = rate_limiter.get_rate_limit_status("10.1.2.3", 4, 25, 1000);
    assert_eq!(status.ip, "10.1.2.3");
    assert_eq!(status.count, 4);
    assert_eq!(status.limit, 10);
    assert_eq!(status.remaining, 6);
    assert_eq!(status.reset_time, Some(1025));

    // A key without an expiry reports no reset time.
    let status = rate_limiter.get_rate_limit_status("10.1.2.3", 4, -1, 1000);
    assert_eq!(status.reset_time, None);
}

#[test]
fn reset_twice_equals_reset_once() {
    let rate_limiter = RateLimiter::new(RateLimitConfig { max_requests: 5, period_seconds: 10 });
    let ip = "198.51.100.2";
    let other_key = "rate_limit:198.51.100.3";

    let mut once: StringMap<u64> = StringMap::new();
    once.insert("rate_limit:198.51.100.2".to_string(), 4);
    once.insert(other_key.to_string(), 7);
    let mut twice: StringMap<u64> = StringMap::new();
    twice.insert("rate_limit:198.51.100.2".to_string(), 4);
    twice.insert(other_key.to_string(), 7);

    let key = rate_limiter.reset_rate_limit(ip);
    once.remove(key.as_str());
    let key = rate_limiter.reset_rate_limit(ip);
    twice.remove(key.as_str());
    let key = rate_limiter.reset_rate_limit(ip);
    twice.remove(key.as_str());

    assert!(once.get("rate_limit:198.51.100.2").is_none());
    assert!(twice.get("rate_limit:198.51.100.2").is_none());
    assert_eq!(once.get(other_key), Some(&7));
    assert_eq!(twice.get(other_key), Some(&7));
}

#[test]
fn middleware_delegates_to_the_limiter() {
    let rate_limiter = RateLimiter::new(RateLimitConfig { max_requests: 1, period_seconds: 30 });
    let middleware = RateLimitMiddleware::new(rate_limiter);
    let update = middleware.check_request("172.16.0.1", 0).unwrap();
    assert_eq!(update.key, "rate_limit:172.16.0.1");
    assert_eq!(update.set_expiry_seconds, Some(30));
    assert!(middleware.check_request("172.16.0.1", 1).is_err());
}
