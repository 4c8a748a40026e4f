//! The cache of parsed queries.
use graphdblite::parse_cache::{ParseCache, DEFAULT_CAPACITY};

#[test]
fn hit_returns_equal_ast() {
    let mut cache = ParseCache::with_capacity(8);
    let q = "MATCH (n:Person) RETURN n";
    let a = cache.get_or_parse(q).unwrap();
    let b = cache.get_or_parse(q).unwrap();
    assert_eq!(a, b);
    assert_eq!(cache.len(), 1);
}

#[test]
fn miss_parses_and_inserts() {
    let mut cache = ParseCache::with_capacity(8);
    cache.get_or_parse("MATCH (n) RETURN n").unwrap();
    cache.get_or_parse("MATCH (n:Person) RETURN n").unwrap();
    assert_eq!(cache.len(), 2);
}

#[test]
fn evicts_oldest_at_capacity() {
    let mut cache = ParseCache::with_capacity(2);
    cache.get_or_parse("MATCH (n) RETURN n").unwrap();
    cache.get_or_parse("MATCH (n:A) RETURN n").unwrap();
    cache.get_or_parse("MATCH (n:B) RETURN n").unwrap();
    // First entry should have been evicted.
    assert_eq!(cache.len(), 2);
}

#[test]
fn parse_error_is_not_cached() {
    let mut cache = ParseCache::with_capacity(8);
    assert!(cache.get_or_parse("NOT VALID CYPHER").is_err());
    assert_eq!(cache.len(), 0);
}

#[test]
fn a_cache_without_room_keeps_the_newest_query() {
    let mut cache = ParseCache::with_capacity(0);
    cache.get_or_parse("MATCH (n) RETURN n").unwrap();
    assert_eq!(cache.len(), 1);
    cache.get_or_parse("MATCH (n:A) RETURN n").unwrap();
    assert_eq!(cache.len(), 1);
}

#[test]
fn the_default_cache_holds_many_queries() {
    let mut cache = ParseCache::default();
    let mut i = 0;
    while i < DEFAULT_CAPACITY + 3 {
        cache.get_or_parse(&format!("RETURN {i}")).unwrap();
        i += 1;
    }
    assert_eq!(cache.len(), 128);
}
