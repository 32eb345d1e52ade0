//! The cache of resolved host names.
use realm_virt::vsock_proxy::hostname_cache::{
    HostnameCache, HostnameCacheEntry, IpAddr, DEFAULT_CACHE_TIMEOUT,
};

const SEC: u128 = 1_000_000_000;
const MILLI: u128 = 1_000_000;

fn v4(a: u8, b: u8, c: u8, d: u8) -> IpAddr {
    IpAddr::V4(u32::from_be_bytes([a, b, c, d]))
}

#[test]
fn test_hostname_cache() {
    let mut cache = HostnameCache::new(60 * SEC);
    let ip = v4(192, 168, 1, 1);
    let now = 5 * SEC;

    cache.insert(ip, "example.com".to_string(), 443, now);

    // Test IP -> hostname lookup
    let (hostname, port) = cache.get_hostname(&ip, 443, now).unwrap();
    assert_eq!(hostname, "example.com");
    assert_eq!(port, 443);

    // Test hostname -> IP lookup
    let resolved_ip = cache.get_ip("example.com", 443, now).unwrap();
    assert_eq!(resolved_ip, ip);
}

#[test]
fn test_hostname_cache_expiry() {
    let mut cache = HostnameCache::new(100 * MILLI);
    let ip = v4(10, 0, 0, 1);
    let now = 7 * SEC;

    cache.insert(ip, "test.local".to_string(), 8080, now);

    // Should be found immediately
    assert!(cache.get_hostname(&ip, 8080, now).is_some());

    // Should be expired after 150 ms
    assert!(cache.get_hostname(&ip, 8080, now + 150 * MILLI).is_none());
}

#[test]
fn mappings_expire_only_after_the_timeout() {
    let mut cache = HostnameCache::new(10);
    cache.insert(v4(1, 2, 3, 4), "a".to_string(), 1, 100);
    assert_eq!(cache.get_ip("a", 1, 110), Some(v4(1, 2, 3, 4)));
    assert_eq!(cache.get_ip("a", 1, 111), None);
    assert_eq!(cache.get_ip("a", 1, 110), None);
}

#[test]
fn use_by_address_renews_a_mapping_and_use_by_name_does_not() {
    let mut cache = HostnameCache::new(10);
    let ip = IpAddr::V6(1);
    cache.insert(ip, "a".to_string(), 1, 0);
    assert!(cache.get_hostname(&ip, 1, 8).is_some());
    assert!(cache.get_ip("a", 1, 18).is_some());
    assert!(cache.get_ip("a", 1, 19).is_none());
}

#[test]
fn a_new_name_replaces_the_old_one_of_an_address() {
    let mut cache = HostnameCache::default();
    let ip = v4(9, 9, 9, 9);
    cache.insert(ip, "old".to_string(), 1, 0);
    cache.insert(ip, "new".to_string(), 1, 0);
    assert_eq!(cache.get_ip("old", 1, 0), None);
    assert_eq!(cache.get_ip("new", 1, 0), Some(ip));
    assert_eq!(cache.get_hostname(&ip, 0, 0), Some(("new".to_string(), 1)));
}

#[test]
fn ports_are_told_apart() {
    let mut cache = HostnameCache::with_default_timeout();
    cache.insert(v4(1, 1, 1, 1), "h".to_string(), 1, 0);
    cache.insert(v4(2, 2, 2, 2), "h".to_string(), 2, 0);
    assert_eq!(cache.get_ip("h", 1, DEFAULT_CACHE_TIMEOUT), Some(v4(1, 1, 1, 1)));
    assert_eq!(cache.get_ip("h", 2, DEFAULT_CACHE_TIMEOUT), Some(v4(2, 2, 2, 2)));
    assert_eq!(cache.get_ip("h", 3, 0), None);
}

#[test]
fn an_expired_address_leaves_a_shared_name_to_the_live_one() {
    let mut cache = HostnameCache::new(10);
    let (first, second) = (v4(1, 1, 1, 1), v4(2, 2, 2, 2));
    cache.insert(first, "h".to_string(), 1, 0);
    cache.insert(second, "h".to_string(), 1, 5);
    assert_eq!(cache.get_ip("h", 1, 5), Some(second));
    assert_eq!(cache.get_ip("h", 1, 12), Some(second));
    assert_eq!(cache.get_hostname(&first, 1, 12), None);
    assert_eq!(cache.get_hostname(&second, 1, 12), Some(("h".to_string(), 1)));
    assert_eq!(cache.get_ip("h", 1, 23), None);
}

#[test]
fn a_renamed_address_takes_a_shared_name_along() {
    let mut cache = HostnameCache::new(10);
    let (first, second) = (v4(1, 1, 1, 1), v4(2, 2, 2, 2));
    cache.insert(first, "h".to_string(), 1, 0);
    cache.insert(second, "h".to_string(), 1, 0);
    cache.insert(v4(3, 3, 3, 3), "k".to_string(), 1, 0);
    cache.insert(first, "other".to_string(), 1, 0);
    assert_eq!(cache.get_ip("h", 1, 0), None);
    assert_eq!(cache.get_ip("other", 1, 0), Some(first));
    assert_eq!(cache.get_ip("k", 1, 0), Some(v4(3, 3, 3, 3)));
    assert_eq!(cache.get_hostname(&second, 1, 0), Some(("h".to_string(), 1)));
}

#[test]
fn lookups_in_both_directions_agree() {
    let mut cache = HostnameCache::new(10);
    for i in 0..5u32 {
        cache.insert(IpAddr::V4(i), format!("host{}", i % 3), 1, i as u128);
    }
    for i in 0..3 {
        let name = format!("host{}", i);
        if let Some(ip) = cache.get_ip(&name, 1, 11) {
            assert_eq!(cache.get_hostname(&ip, 1, 11), Some((name, 1)));
        }
    }
}

#[test]
fn cloned_entries_hold_the_same() {
    let entry = HostnameCacheEntry { hostname: "h".to_string(), port: 9, last_used: 5 };
    let copy = entry.clone();
    assert_eq!((copy.hostname.as_str(), copy.port, copy.last_used), ("h", 9, 5));
}
