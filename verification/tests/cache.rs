use rust_iss::repo::cache_repo::{prefix_pattern, CacheFault, CacheRepo};

#[test]
fn get_on_an_empty_cache_is_a_miss() {
    let cache = CacheRepo::new();
    assert!(cache.get("iss:last", 0).is_none());
    assert!(!cache.is_cached("iss:last", 0));
}

#[test]
fn set_then_get_serves_until_the_ttl_is_over() {
    let mut cache = CacheRepo::new();
    assert_eq!(cache.set("k", "v", 300, 1000), Ok(()));
    assert_eq!(cache.get("k", 1000).unwrap(), "v");
    assert_eq!(cache.get("k", 1299).unwrap(), "v");
    assert!(cache.get("k", 1300).is_none());
    assert!(cache.get("k", 5000).is_none());
    assert!(cache.is_cached("k", 1299));
    assert!(!cache.is_cached("k", 1300));
}

#[test]
fn set_overwrites_the_entry_for_the_key() {
    let mut cache = CacheRepo::new();
    cache.set("k", "first", 10, 0).unwrap();
    cache.set("k", "second", 100, 5).unwrap();
    assert_eq!(cache.get("k", 50).unwrap(), "second");
    assert!(cache.get("k", 105).is_none());
}

#[test]
fn a_lifetime_of_zero_is_turned_down_and_changes_nothing() {
    let mut cache = CacheRepo::new();
    cache.set("k", "kept", 10, 0).unwrap();
    assert_eq!(cache.set("k", "lost", 0, 1), Err(CacheFault::InvalidExpiry));
    assert_eq!(cache.get("k", 1).unwrap(), "kept");
    assert_eq!(cache.set("other", "lost", 0, 1), Err(CacheFault::InvalidExpiry));
    assert!(cache.get("other", 1).is_none());
}

#[test]
fn invalidate_then_get_misses_until_the_next_set() {
    let mut cache = CacheRepo::new();
    cache.set("iss:last", "a", 300, 0).unwrap();
    cache.set("nasa:apod", "b", 300, 0).unwrap();

    cache.delete("iss:last");
    assert!(cache.get("iss:last", 0).is_none());

    cache.set("nasa:apod", "c", 300, 1).unwrap();
    cache.delete("spacex:next");
    assert!(!cache.expire("iss:last", 500, 2));
    assert!(cache.get("iss:last", 2).is_none());
    assert!(cache.get("iss:last", i64::MAX).is_none());
    assert!(cache.get("iss:last", i64::MIN).is_none());

    cache.set("iss:last", "d", 300, 3).unwrap();
    assert_eq!(cache.get("iss:last", 3).unwrap(), "d");
    assert_eq!(cache.get("nasa:apod", 3).unwrap(), "c");
}

#[test]
fn deleting_an_absent_key_is_not_an_error() {
    let mut cache = CacheRepo::new();
    cache.delete("nothing");
    cache.set("k", "v", 10, 0).unwrap();
    cache.delete("nothing");
    assert_eq!(cache.get("k", 1).unwrap(), "v");
}

#[test]
fn expire_renews_only_entries_that_are_still_served() {
    let mut cache = CacheRepo::new();
    cache.set("k", "v", 10, 0).unwrap();
    assert!(cache.expire("k", 100, 5));
    assert_eq!(cache.get("k", 104).unwrap(), "v");
    assert!(cache.get("k", 105).is_none());
    assert!(!cache.expire("k", 100, 105));
    assert!(cache.get("k", 106).is_none());
    assert!(!cache.expire("absent", 100, 0));
}

#[test]
fn expire_with_zero_drops_the_entry() {
    let mut cache = CacheRepo::new();
    cache.set("k", "v", 10, 0).unwrap();
    assert!(cache.expire("k", 0, 3));
    assert!(cache.get("k", 3).is_none());
}

#[test]
fn expiry_stops_at_the_last_second() {
    let mut cache = CacheRepo::new();
    cache.set("k", "v", usize::MAX, i64::MAX - 1).unwrap();
    assert_eq!(cache.get("k", i64::MAX - 1).unwrap(), "v");
    assert!(cache.get("k", i64::MAX).is_none());
}

#[test]
fn delete_prefix_removes_exactly_the_keys_it_opens() {
    let mut cache = CacheRepo::new();
    for key in ["osdr:all", "osdr:all:50", "osdr:all:100", "osdr:datasets", "osdr:al", "iss:last"] {
        cache.set(key, key, 100, 0).unwrap();
    }
    cache.delete_prefix("osdr:all");
    assert!(cache.get("osdr:all", 1).is_none());
    assert!(cache.get("osdr:all:50", 1).is_none());
    assert!(cache.get("osdr:all:100", 1).is_none());
    assert_eq!(cache.get("osdr:datasets", 1).unwrap(), "osdr:datasets");
    assert_eq!(cache.get("osdr:al", 1).unwrap(), "osdr:al");
    assert_eq!(cache.get("iss:last", 1).unwrap(), "iss:last");

    cache.delete_prefix("");
    assert!(cache.get("iss:last", 1).is_none());
    assert!(cache.get("osdr:al", 1).is_none());
}

#[test]
fn a_prefix_pattern_takes_the_prefix_literally() {
    assert_eq!(prefix_pattern("osdr:all"), "osdr:all*");
    assert_eq!(prefix_pattern(""), "*");
    assert_eq!(prefix_pattern("a*b"), "a\\*b*");
    assert_eq!(prefix_pattern("what?"), "what\\?*");
    assert_eq!(prefix_pattern("[x]"), "\\[x\\]*");
    assert_eq!(prefix_pattern("back\\slash"), "back\\\\slash*");
    assert_eq!(prefix_pattern("**"), "\\*\\**");
    assert_eq!(prefix_pattern("clé:ü"), "clé:ü*");
}
