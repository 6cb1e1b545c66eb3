use rust_iss::utils::metrics::{
    all_accepted, bump, record_advisory_lock_acquired, record_advisory_lock_failed, record_cache_hit,
    record_cache_miss, slot_of, update_db_pool_metrics, Metrics, SLOT_BASIS,
};

#[test]
fn nothing_is_counted_at_first() {
    let m = Metrics::new().unwrap();
    assert_eq!(m.cache_hits.get("iss:last"), 0);
    assert_eq!(m.cache_misses.get("iss:last"), 0);
    assert_eq!(m.locks_acquired.get("1001"), 0);
    assert_eq!(m.locks_failed.get("1001"), 0);
    assert_eq!(m.db_connections_active.get("main"), 0);
    assert_eq!(m.db_connections_idle.get("main"), 0);
}

#[test]
fn hits_and_misses_are_counted_by_key() {
    let mut m = Metrics::new().unwrap();
    record_cache_hit(&mut m, "iss:last");
    record_cache_hit(&mut m, "iss:last");
    record_cache_hit(&mut m, "nasa:apod");
    record_cache_miss(&mut m, "iss:last");
    assert_eq!(m.cache_hits.get("iss:last"), 2);
    assert_eq!(m.cache_hits.get("nasa:apod"), 1);
    assert_eq!(m.cache_misses.get("iss:last"), 1);
    assert_eq!(m.cache_misses.get("nasa:apod"), 0);
    assert_eq!(m.locks_acquired.get("iss:last"), 0);
}

#[test]
fn lock_attempts_are_counted_under_the_id_in_decimal() {
    let mut m = Metrics::new().unwrap();
    record_advisory_lock_acquired(&mut m, 1001);
    record_advisory_lock_failed(&mut m, 1001);
    record_advisory_lock_failed(&mut m, 1001);
    record_advisory_lock_failed(&mut m, -7);
    assert_eq!(m.locks_acquired.get("1001"), 1);
    assert_eq!(m.locks_failed.get("1001"), 2);
    assert_eq!(m.locks_failed.get("-7"), 1);
    assert_eq!(m.locks_acquired.get("-7"), 0);
}

#[test]
fn pool_gauges_show_the_last_value() {
    let mut m = Metrics::new().unwrap();
    update_db_pool_metrics(&mut m, "main", 3, 7);
    update_db_pool_metrics(&mut m, "replica", 1, 0);
    update_db_pool_metrics(&mut m, "main", 4, 6);
    assert_eq!(m.db_connections_active.get("main"), 4);
    assert_eq!(m.db_connections_idle.get("main"), 6);
    assert_eq!(m.db_connections_active.get("replica"), 1);
    assert_eq!(m.db_connections_idle.get("replica"), 0);
    update_db_pool_metrics(&mut m, "huge", usize::MAX, 0);
    assert_eq!(m.db_connections_active.get("huge"), i64::MAX);
    assert_eq!(m.db_connections_active.get("main"), 4);
}

#[test]
fn a_counter_wraps_at_the_top() {
    let mut m = Metrics::new().unwrap();
    m.cache_hits.add("k", u64::MAX - 1);
    bump(&mut m.cache_hits, "k");
    assert_eq!(m.cache_hits.get("k"), u64::MAX);
    bump(&mut m.cache_hits, "k");
    assert_eq!(m.cache_hits.get("k"), 0);
    m.cache_hits.add("k", 5);
    m.cache_hits.add("k", u64::MAX);
    assert_eq!(m.cache_hits.get("k"), 4);
    bump(&mut m.cache_hits, "fresh");
    assert_eq!(m.cache_hits.get("fresh"), 1);
    m.cache_hits.add("fresh", 0);
    assert_eq!(m.cache_hits.get("fresh"), 1);
}

#[test]
fn families_are_registered_once() {
    let m = Metrics::new().unwrap();
    assert!(m.register());
    assert!(!m.register());
    let again = Metrics::new().unwrap();
    assert!(!again.register());
}

#[test]
fn one_refusal_is_enough() {
    assert!(all_accepted(&vec![]));
    assert!(all_accepted(&vec![true, true, true]));
    assert!(!all_accepted(&vec![true, false, true]));
    assert!(!all_accepted(&vec![false]));
}

#[test]
fn slots_are_the_hash_of_the_label_bytes() {
    assert_eq!(slot_of(""), SLOT_BASIS);
    assert_eq!(slot_of(""), 0xcbf2_9ce4_8422_2325);
    assert_eq!(slot_of("a"), 0xaf63_dc4c_8601_ec8c);
    assert_eq!(slot_of("foobar"), 0x8594_4171_f739_67e8);
    assert_eq!(slot_of("iss:last"), 0x92c5_692a_b5e4_e7f8);
    assert_eq!(slot_of("1001"), 0x0d82_6af0_f88e_4bd7);
    assert_eq!(slot_of("cl\u{e9}"), 0x15af_f891_1f52_ba36);
    assert_ne!(slot_of("ab"), slot_of("ba"));
}
