use androidfs::cache::Cache;

fn k(s: &str) -> String {
    s.to_string()
}

#[test]
fn cache_eviction_drops_oldest() {
    let mut c: Cache<u32> = Cache::new(1000, 2);
    c.put(k("k1"), 1, 0);
    c.put(k("k2"), 2, 0);
    c.put(k("k3"), 3, 0);
    assert_eq!(c.try_get(&k("k1"), 0), None);
    assert_eq!(c.try_get(&k("k2"), 0), Some(&2));
    assert_eq!(c.try_get(&k("k3"), 0), Some(&3));
}

#[test]
fn cache_entry_expires_after_ttl() {
    let mut c: Cache<&str> = Cache::new(1000, 10);
    c.put(k("a"), "v", 500);
    assert_eq!(c.try_get(&k("a"), 500), Some(&"v"));
    assert_eq!(c.try_get(&k("a"), 1499), Some(&"v"));
    assert_eq!(c.try_get(&k("a"), 1500), None);
    // A clock reading before the insertion counts as no time passed.
    assert_eq!(c.try_get(&k("a"), 100), Some(&"v"));
}

#[test]
fn cache_put_replaces_and_refreshes_key() {
    let mut c: Cache<u32> = Cache::new(1000, 2);
    c.put(k("a"), 1, 0);
    c.put(k("b"), 2, 0);
    c.put(k("a"), 10, 5);
    assert_eq!(c.try_get(&k("a"), 5), Some(&10));
    // The cache was full, so the oldest entry ("a") went first; "b" stays.
    assert_eq!(c.try_get(&k("b"), 5), Some(&2));
    c.put(k("c"), 3, 6);
    assert_eq!(c.try_get(&k("b"), 6), None);
    assert_eq!(c.try_get(&k("a"), 6), Some(&10));
    assert_eq!(c.try_get(&k("c"), 6), Some(&3));
}

#[test]
fn cache_erase_removes_entry() {
    let mut c: Cache<u32> = Cache::new(1000, 3);
    c.put(k("a"), 1, 0);
    c.erase(&k("a"));
    assert_eq!(c.try_get(&k("a"), 0), None);
    c.erase(&k("missing"));
    assert_eq!(c.try_get(&k("missing"), 0), None);
}

#[test]
fn cache_of_size_one_keeps_latest() {
    let mut c: Cache<u32> = Cache::new(10, 1);
    c.put(k("a"), 1, 0);
    c.put(k("b"), 2, 0);
    assert_eq!(c.try_get(&k("a"), 0), None);
    assert_eq!(c.try_get(&k("b"), 0), Some(&2));
}
