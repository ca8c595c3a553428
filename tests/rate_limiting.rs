use prestagest::client_id::RequestMeta;
use prestagest::rate_limit::{denial_for, RateLimitPolicy, RateLimitStore};

fn meta(headers: &[(&str, &str)]) -> RequestMeta {
    RequestMeta {
        headers: headers.iter().map(|(n, v)| (n.to_string(), v.to_string())).collect(),
        peer_ip: None,
    }
}

#[test]
fn sixth_request_within_window_is_denied() {
    let mut store = RateLimitStore::new();
    for i in 0..5u64 {
        assert_eq!(store.check_rate_limit("ip_1.2.3.4", 5, 60, i * 1000), (true, 0));
    }
    let (allowed, remaining) = store.check_rate_limit("ip_1.2.3.4", 5, 60, 10_000);
    assert!(!allowed);
    assert!(remaining <= 60);
    assert_eq!(remaining, 60);
}

#[test]
fn request_after_window_resets_counter() {
    let mut store = RateLimitStore::new();
    for _ in 0..6 {
        store.check_rate_limit("k", 5, 60, 0);
    }
    assert_eq!(store.check_rate_limit("k", 5, 60, 60_001), (true, 0));
    let d = store.get("k").unwrap();
    assert_eq!(d.count, 1);
    assert_eq!(d.window_start, 60_001);
    assert_eq!(d.block_start, None);
}

#[test]
fn window_boundary_is_still_inside() {
    let mut store = RateLimitStore::new();
    for _ in 0..5 {
        store.check_rate_limit("k", 5, 60, 0);
    }
    let (allowed, _) = store.check_rate_limit("k", 5, 60, 60_000);
    assert!(!allowed);
}

#[test]
fn blocked_client_waits_less_as_time_passes() {
    let mut store = RateLimitStore::new();
    for _ in 0..5 {
        store.check_rate_limit("k", 5, 60, 0);
    }
    assert_eq!(store.check_rate_limit("k", 5, 60, 1_000), (false, 60));
    assert_eq!(store.check_rate_limit("k", 5, 60, 31_500), (false, 30));
    assert_eq!(store.get("k").unwrap().block_start, Some(1_000));
}

#[test]
fn same_instant_burst_admits_exactly_limit() {
    let mut store = RateLimitStore::new();
    let mut admitted = 0;
    for _ in 0..12 {
        if store.check_rate_limit("fresh", 5, 60, 42).0 {
            admitted += 1;
        }
    }
    assert_eq!(admitted, 5);
}

#[test]
fn burst_smaller_than_limit_is_all_admitted() {
    let mut store = RateLimitStore::new();
    let admitted = (0..3).filter(|_| store.check_rate_limit("fresh", 5, 60, 7).0).count();
    assert_eq!(admitted, 3);
}

#[test]
fn keys_are_throttled_separately() {
    let mut store = RateLimitStore::new();
    for _ in 0..5 {
        store.check_rate_limit("a", 5, 60, 0);
    }
    assert!(!store.check_rate_limit("a", 5, 60, 0).0);
    assert!(store.check_rate_limit("b", 5, 60, 0).0);
    assert_eq!(store.get("b").unwrap().count, 1);
    assert_eq!(store.get("a").unwrap().count, 5);
    assert!(store.get("c").is_none());
}

#[test]
fn policies_have_their_limits() {
    assert_eq!(RateLimitPolicy::Normal.limit(), 100);
    assert_eq!(RateLimitPolicy::Strict.limit(), 10);
    assert_eq!(RateLimitPolicy::Auth.limit(), 5);
    assert_eq!(RateLimitPolicy::Auth.window_seconds(), 60);
}

#[test]
fn denial_carries_wait_in_message() {
    let d = denial_for(42);
    assert_eq!(d.retry_after, 42);
    assert_eq!(d.message, "Límite de tasa excedido. Por favor espere 42 segundos");
    assert_eq!(d.error, "Too Many Request");
}

#[test]
fn throttle_uses_client_identifier() {
    let mut store = RateLimitStore::new();
    let m = meta(&[("x-forwarded-for", "203.0.113.5")]);
    for _ in 0..5 {
        assert!(store.throttle(&m, RateLimitPolicy::Auth, 0).is_ok());
    }
    let denial = store.throttle(&m, RateLimitPolicy::Auth, 500).unwrap_err();
    assert_eq!(denial.retry_after, 60);
    assert_eq!(store.get("ip_203.0.113.5").unwrap().count, 5);
    let other = meta(&[("x-forwarded-for", "198.51.100.7")]);
    assert!(store.throttle(&other, RateLimitPolicy::Auth, 500).is_ok());
}

#[test]
fn stale_clients_are_forgotten() {
    let mut store = RateLimitStore::new();
    store.check_rate_limit("a", 5, 60, 0);
    store.check_rate_limit("b", 5, 60, 50_000);
    store.check_rate_limit("b", 5, 60, 50_001);
    store.evict_stale(61_000, 60);
    assert!(store.get("a").is_none());
    assert_eq!(store.get("b").unwrap().count, 2);
    store.evict_stale(60_000, 60);
    assert!(store.get("b").is_some());
}

#[test]
fn zero_window_never_blocks() {
    let mut store = RateLimitStore::new();
    for _ in 0..4 {
        assert_eq!(store.check_rate_limit("k", 1, 0, 5), (true, 0));
    }
}

#[test]
fn extreme_limits_and_times() {
    let mut store = RateLimitStore::new();
    assert!(store.check_rate_limit("k", u32::MAX, u64::MAX, u64::MAX).0);
    assert!(store.check_rate_limit("k", u32::MAX, u64::MAX, 0).0);
    assert_eq!(store.get("k").unwrap().count, 2);
    let mut strict = RateLimitStore::new();
    assert!(strict.check_rate_limit("z", 0, 60, 0).0);
    assert_eq!(strict.check_rate_limit("z", 0, 60, 0), (false, 60));
}

#[test]
fn empty_key_is_a_key() {
    let mut store = RateLimitStore::new();
    assert!(store.check_rate_limit("", 1, 60, 0).0);
    assert!(!store.check_rate_limit("", 1, 60, 0).0);
    assert!(store.get("").is_some());
}
