use plugin_statistics::dedupe::DedupeCache;

#[test]
fn remembers_the_newest_identifiers() {
    let mut cache = DedupeCache::new(2);
    assert_eq!(cache.capacity(), 2);
    assert_eq!(cache.len(), 0);
    cache.remember("a");
    cache.remember("b");
    assert!(cache.contains("a") && cache.contains("b"));
    cache.remember("c");
    assert_eq!(cache.len(), 2);
    assert!(!cache.contains("a"));
    assert!(cache.contains("b") && cache.contains("c"));
}

#[test]
fn a_known_identifier_keeps_its_place() {
    let mut cache = DedupeCache::new(2);
    for id in ["a", "b", "a", "c"] {
        cache.remember(id);
    }
    assert!(!cache.contains("a"));
    assert!(cache.contains("b") && cache.contains("c"));
}

#[test]
fn empty_identifiers_and_empty_memories_keep_nothing() {
    let mut cache = DedupeCache::new(2);
    cache.remember("");
    assert_eq!(cache.len(), 0);
    assert!(!cache.contains(""));
    let mut none = DedupeCache::new(0);
    none.remember("a");
    assert_eq!(none.len(), 0);
    assert!(!none.contains("a"));
}

#[test]
fn a_new_identifier_stays_while_there_is_room() {
    let mut cache = DedupeCache::new(100);
    for n in 0..250 {
        cache.remember(&format!("id-{n}"));
        assert!(cache.len() <= 100);
    }
    for n in 0..250 {
        assert_eq!(cache.contains(&format!("id-{n}")), n >= 150);
    }
}
