use thumbor::cache::{url_key, FetchCache, ResolveAction};

#[test]
fn hash_is_deterministic_and_discriminating() {
    let a = url_key("https://example.test/a.png");
    let b = url_key("https://example.test/b.png");
    assert_eq!(a, url_key("https://example.test/a.png"));
    assert_ne!(a, b);
}

#[test]
fn hash_of_empty_is_fnv_offset_basis() {
    assert_eq!(url_key(""), 0xcbf29ce484222325);
}

#[test]
fn lru_eviction_with_capacity_two() {
    let mut cache = FetchCache::new(2);
    let (a, b, c) = (url_key("a"), url_key("b"), url_key("c"));
    cache.store_fetched(a, vec![1]);
    cache.store_fetched(b, vec![2]);
    cache.store_fetched(c, vec![3]);
    // a was least recently used and is evicted; b and c still hit.
    assert_eq!(cache.lookup(a), None);
    assert_eq!(cache.lookup(b), Some(vec![2]));
    assert_eq!(cache.lookup(c), Some(vec![3]));
}

#[test]
fn lookup_counts_as_a_use() {
    let mut cache = FetchCache::new(2);
    let (a, b, c) = (url_key("a"), url_key("b"), url_key("c"));
    cache.store_fetched(a, vec![1]);
    cache.store_fetched(b, vec![2]);
    // Touch a: now b is the least recently used entry.
    assert_eq!(cache.lookup(a), Some(vec![1]));
    cache.store_fetched(c, vec![3]);
    assert_eq!(cache.lookup(b), None);
    assert_eq!(cache.lookup(a), Some(vec![1]));
    assert_eq!(cache.lookup(c), Some(vec![3]));
}

#[test]
fn store_replaces_value_of_present_key() {
    let mut cache = FetchCache::new(2);
    let a = url_key("a");
    cache.store_fetched(a, vec![1]);
    cache.store_fetched(a, vec![9]);
    assert_eq!(cache.lookup(a), Some(vec![9]));
}

#[test]
fn single_flight_claim_is_exclusive() {
    let mut cache = FetchCache::new(2);
    let k = url_key("a");
    assert!(cache.try_claim(k));
    assert!(!cache.try_claim(k));
    // A failed fetch releases without storing; the key may be claimed again.
    cache.release(k);
    assert_eq!(cache.lookup(k), None);
    assert!(cache.try_claim(k));
}

#[test]
fn storing_releases_the_claim() {
    let mut cache = FetchCache::new(2);
    let k = url_key("a");
    assert!(cache.try_claim(k));
    cache.store_fetched(k, vec![7]);
    assert_eq!(cache.lookup(k), Some(vec![7]));
    assert!(cache.try_claim(k));
}

#[test]
fn resolve_step_walks_the_single_flight_protocol() {
    let mut cache = FetchCache::new(2);
    let k = url_key("https://example.test/img.jpg");
    // First resolver of an uncached key is told to fetch.
    match cache.resolve_step(k) {
        ResolveAction::StartFetch => {},
        _ => panic!("first resolve must start the fetch"),
    }
    // A concurrent resolver of the same key must wait, not fetch.
    match cache.resolve_step(k) {
        ResolveAction::AwaitOther => {},
        _ => panic!("second resolve must wait"),
    }
    cache.store_fetched(k, vec![4, 2]);
    match cache.resolve_step(k) {
        ResolveAction::UseCached(v) => assert_eq!(v, vec![4, 2]),
        _ => panic!("resolve after store must hit"),
    }
}
