use adventskalender_backend::rate_limit::{RateLimitConfig, RateLimiter};

#[test]
fn five_attempts_pass_the_sixth_is_limited() {
    let mut limiter = RateLimiter::new();
    let config = RateLimitConfig::default();
    let start: u64 = 1000;
    for n in 0..5u64 {
        assert!(!limiter.is_rate_limited("alice", &config, start + n));
    }
    assert_eq!(limiter.entry("alice"), Some((5, 1000)));
    assert!(limiter.is_rate_limited("alice", &config, start + 5));
    // The rejected attempt is not counted.
    assert_eq!(limiter.entry("alice"), Some((5, 1000)));
}

#[test]
fn window_elapse_resets_to_one_attempt() {
    let mut limiter = RateLimiter::new();
    let config = RateLimitConfig::default();
    for n in 0..6u64 {
        limiter.is_rate_limited("alice", &config, 1000 + n);
    }
    let after_window: u64 = 1000 + 15 * 60 + 1;
    assert!(!limiter.is_rate_limited("alice", &config, after_window));
    assert_eq!(limiter.entry("alice"), Some((1, after_window)));
}

#[test]
fn keys_are_counted_separately() {
    let mut limiter = RateLimiter::new();
    let config = RateLimitConfig::default();
    for n in 0..5u64 {
        assert!(!limiter.is_rate_limited("alice", &config, 1000 + n));
    }
    assert!(limiter.is_rate_limited("alice", &config, 1006));
    assert!(!limiter.is_rate_limited("bob", &config, 1006));
}

#[test]
fn reset_forgives_prior_attempts() {
    let mut limiter = RateLimiter::new();
    let config = RateLimitConfig::default();
    for n in 0..6u64 {
        limiter.is_rate_limited("alice", &config, 1000 + n);
    }
    limiter.reset_rate_limit("alice");
    assert_eq!(limiter.entry("alice"), None);
    assert!(!limiter.is_rate_limited("alice", &config, 1010));
    assert_eq!(limiter.entry("alice"), Some((1, 1010)));
}

#[test]
fn cleanup_drops_only_expired_windows() {
    let mut limiter = RateLimiter::new();
    let config = RateLimitConfig::default();
    limiter.is_rate_limited("stale", &config, 100);
    let later: u64 = 100 + 15 * 60 + 50;
    limiter.is_rate_limited("fresh", &config, later);
    limiter.cleanup_old_entries(&config, later);
    assert_eq!(limiter.entry("stale"), None);
    assert_eq!(limiter.entry("fresh"), Some((1, later)));
}
