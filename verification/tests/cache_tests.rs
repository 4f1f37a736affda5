use stellar_fee_tracker::cache::ResponseCache;

#[test]
fn get_returns_none_when_cache_is_empty() {
    let cache = ResponseCache::<u64>::new(5_000);
    assert!(cache.get(0).is_none());
}

#[test]
fn get_returns_value_when_cache_is_fresh() {
    let mut cache = ResponseCache::new(1_000);
    cache.set(42_u64, 10_000);

    assert_eq!(cache.get(10_500), Some(&42));
    assert!(cache.is_fresh(10_500));
}

#[test]
fn get_returns_none_after_ttl_expires() {
    let mut cache = ResponseCache::new(10);
    cache.set(42_u64, 10_000);

    assert!(cache.get(10_020).is_none());
    assert!(!cache.is_fresh(10_020));
}

#[test]
fn invalidate_clears_cached_value() {
    let mut cache = ResponseCache::new(5_000);
    cache.set(42_u64, 10_000);
    cache.invalidate();

    assert!(cache.get(10_000).is_none());
    assert!(!cache.is_fresh(10_000));
}

#[test]
fn value_stored_at_exact_ttl_boundary_is_still_fresh() {
    let mut cache = ResponseCache::new(1_000);
    cache.set(7_u64, 10_000);
    assert_eq!(cache.get(11_000), Some(&7));
    assert!(cache.get(11_001).is_none());
}
