use morty_rs::idcache::IdCache;

fn id(n: usize) -> Vec<u8> {
    format!("id-{:04}", n).into_bytes()
}

#[test]
fn fifo_bound_keeps_exactly_the_most_recent_capacity_ids() {
    // Insert capacity + k distinct ids for several k and check that
    // exactly the most recent `capacity` are still present.
    let capacity = 10;
    for k in [0usize, 1, 3, 17] {
        let mut cache = IdCache::new(capacity);
        let total = capacity + k;
        for n in 0..total {
            cache.add(&id(n));
        }
        for n in 0..total {
            let expected = n + capacity >= total;
            assert_eq!(cache.contains(&id(n)), expected, "k={} n={}", k, n);
        }
    }
}

#[test]
fn insertion_order_decides_eviction_not_lookups() {
    let mut cache = IdCache::new(2);
    cache.add(b"first");
    cache.add(b"second");
    // Touching the oldest entry does not refresh it: this is FIFO, not LRU.
    assert!(cache.contains(b"first"));
    cache.add(b"third");
    assert!(!cache.contains(b"first"));
    assert!(cache.contains(b"second"));
    assert!(cache.contains(b"third"));
}

#[test]
fn empty_cache_contains_nothing() {
    let cache = IdCache::new(10);
    assert!(!cache.contains(b"anything"));
}

#[test]
fn duplicate_insertions_still_respect_the_bound() {
    let mut cache = IdCache::new(3);
    for _ in 0..10 {
        cache.add(b"same");
    }
    assert!(cache.contains(b"same"));
    cache.add(b"a");
    cache.add(b"b");
    cache.add(b"c");
    assert!(!cache.contains(b"same"));
}

#[test]
fn zero_capacity_cache_keeps_nothing() {
    let mut cache = IdCache::new(0);
    cache.add(b"x");
    assert!(!cache.contains(b"x"));
}
