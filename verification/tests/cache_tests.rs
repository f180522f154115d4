use fabricsim::cache::{CacheParams, NmruCache};

#[test]
fn test_nmru_cache_1() {
    let p = CacheParams { laddrbits: 6, capacity: 128, assoc: 4 };
    let mut c = NmruCache::new(&p);

    assert!(!c.lookup(0));
    c.insert(0xDEAD0000);
    c.access(0xDEAD0000);

    assert!(c.lookup(0xDEAD0000));

    c.insert(0x1EAD0000);
    c.access(0x1EAD0000);

    c.insert(0x2EAD0000);
    c.access(0x2EAD0000);

    c.insert(0x3EAD0000);
    c.access(0x3EAD0000);

    c.insert(0x4EAD0000);
    c.access(0x4EAD0000);

    assert!(!c.lookup(0xDEAD0000));
    assert!(c.lookup(0x1EAD0000));
    assert!(c.lookup(0x2EAD0000));
    assert!(c.lookup(0x3EAD0000));
    assert!(c.lookup(0x4EAD0000));
}

#[test]
fn insert_then_access_keeps_line_present() {
    let p = CacheParams { laddrbits: 4, capacity: 64, assoc: 2 };
    let mut c = NmruCache::new(&p);
    c.insert(0x1230);
    c.access(0x1230);
    assert!(c.lookup(0x1230));
}

#[test]
fn zero_capacity_cache_is_silent() {
    let p = CacheParams { laddrbits: 6, capacity: 0, assoc: 4 };
    let mut c = NmruCache::new(&p);
    assert!(!c.lookup(0));
    c.insert(0xABC0);
    c.access(0xABC0);
    assert!(!c.lookup(0xABC0));
}

#[test]
fn direct_mapped_victim_is_way_zero() {
    // One way per set: every insertion lands in way 0, so a conflicting
    // line evicts the previous occupant.
    let p = CacheParams { laddrbits: 0, capacity: 4, assoc: 1 };
    let mut c = NmruCache::new(&p);
    c.insert(0);
    assert!(c.lookup(0));
    c.insert(4);
    assert!(c.lookup(4));
    assert!(!c.lookup(0));
}

#[test]
fn nmru_evicts_way_after_mru() {
    // Two ways, both filled; the MRU is way 1 after accessing the second
    // line, so the next insertion evicts way 0 ((1 + 1) % 2).
    let p = CacheParams { laddrbits: 0, capacity: 2, assoc: 2 };
    let mut c = NmruCache::new(&p);
    c.insert(1);
    c.access(1);
    c.insert(2);
    c.access(2);
    assert!(c.lookup(1) && c.lookup(2));
    c.insert(3);
    assert!(c.lookup(3));
    assert!(!c.lookup(1));
    assert!(c.lookup(2));
}
