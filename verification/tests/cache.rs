use ipregistry::{DEFAULT_CACHE_MAX_SIZE, DEFAULT_CACHE_TTL, InMemoryCache, IpInfo};

fn info(ip: &str) -> IpInfo {
    IpInfo {
        ip: Some(ip.to_owned()),
        ..Default::default()
    }
}

/// Nanoseconds in a millisecond.
const MS: u128 = 1_000_000;

#[test]
fn get_returns_stored_value() {
    let mut cache = InMemoryCache::new();
    assert_eq!(cache.get("k", 0), None);
    cache.set("k", info("8.8.8.8"), 0);
    assert_eq!(cache.get("k", 0), Some(&info("8.8.8.8")));
}

#[test]
fn set_overwrites_existing_entry() {
    let mut cache = InMemoryCache::new();
    cache.set("k", info("8.8.8.8"), 0);
    cache.set("k", info("1.1.1.1"), 0);
    assert_eq!(cache.get("k", 0), Some(&info("1.1.1.1")));
    assert_eq!(cache.len(), 1);
}

#[test]
fn evicts_least_recently_used_entry() {
    let mut cache = InMemoryCache::builder().max_size(2).build();
    cache.set("a", info("1.1.1.1"), 0);
    cache.set("b", info("2.2.2.2"), 0);
    // Touch "a" so that "b" becomes the least recently used entry.
    assert!(cache.get("a", 0).is_some());
    cache.set("c", info("3.3.3.3"), 0);
    assert!(cache.get("a", 0).is_some());
    assert!(cache.get("b", 0).is_none());
    assert!(cache.get("c", 0).is_some());
}

#[test]
fn expires_entries_after_ttl() {
    let mut cache = InMemoryCache::builder().ttl(10 * MS).build();
    cache.set("k", info("8.8.8.8"), 0);
    assert!(cache.get("k", 0).is_some());
    // 20 ms later.
    assert!(cache.get("k", 20 * MS).is_none());
    assert!(cache.is_empty(), "expired entry should be removed on read");
}

#[test]
fn invalidate_removes_single_entry() {
    let mut cache = InMemoryCache::new();
    cache.set("a", info("1.1.1.1"), 0);
    cache.set("b", info("2.2.2.2"), 0);
    cache.invalidate("a");
    assert!(cache.get("a", 0).is_none());
    assert!(cache.get("b", 0).is_some());
}

#[test]
fn invalidate_all_removes_every_entry() {
    let mut cache = InMemoryCache::new();
    cache.set("a", info("1.1.1.1"), 0);
    cache.set("b", info("2.2.2.2"), 0);
    cache.invalidate_all();
    assert!(cache.is_empty());
}

#[test]
fn zero_builder_values_keep_defaults() {
    let mut cache = InMemoryCache::builder().max_size(0).ttl(0).build();
    assert_eq!(cache.ttl(), DEFAULT_CACHE_TTL);
    cache.set("k", info("8.8.8.8"), 0);
    assert!(cache.get("k", 0).is_some());
}

#[test]
fn entry_is_fresh_until_its_expiry_instant() {
    let mut cache = InMemoryCache::builder().ttl(5).build();
    cache.set("k", info("8.8.8.8"), 100);
    assert_eq!(cache.get("k", 104), Some(&info("8.8.8.8")));
    assert_eq!(cache.get("k", 105), None);
    assert_eq!(cache.len(), 0);
}

#[test]
fn rewriting_an_entry_renews_its_expiry() {
    let mut cache = InMemoryCache::builder().ttl(10).build();
    cache.set("k", info("8.8.8.8"), 0);
    cache.set("k", info("8.8.8.8"), 8);
    assert!(cache.get("k", 15).is_some());
}

#[test]
fn set_evicts_the_oldest_write_when_nothing_was_read() {
    let mut cache = InMemoryCache::builder().max_size(3).build();
    for (key, ip) in [("a", "1.1.1.1"), ("b", "2.2.2.2"), ("c", "3.3.3.3"), ("d", "4.4.4.4")] {
        cache.set(key, info(ip), 0);
    }
    assert_eq!(cache.len(), 3);
    assert!(cache.get("a", 0).is_none());
    assert_eq!(cache.get("d", 0), Some(&info("4.4.4.4")));
}

#[test]
fn overwriting_a_key_in_a_full_cache_evicts_nothing() {
    let mut cache = InMemoryCache::builder().max_size(2).build();
    cache.set("a", info("1.1.1.1"), 0);
    cache.set("b", info("2.2.2.2"), 0);
    cache.set("a", info("9.9.9.9"), 0);
    assert_eq!(cache.len(), 2);
    assert_eq!(cache.get("a", 0), Some(&info("9.9.9.9")));
    assert_eq!(cache.get("b", 0), Some(&info("2.2.2.2")));
}

#[test]
fn invalidating_a_missing_key_changes_nothing() {
    let mut cache = InMemoryCache::new();
    cache.set("a", info("1.1.1.1"), 0);
    cache.invalidate("zzz");
    assert_eq!(cache.len(), 1);
}

#[test]
fn default_cache_uses_default_settings() {
    let cache = InMemoryCache::default();
    assert_eq!(cache.ttl(), DEFAULT_CACHE_TTL);
    assert_eq!(DEFAULT_CACHE_TTL, 600 * 1_000 * MS);
    assert_eq!(DEFAULT_CACHE_MAX_SIZE, 4096);
    assert!(cache.is_empty());
}
