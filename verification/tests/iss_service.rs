use rust_iss::calendar::instant_from_seconds;
use rust_iss::domain::error::ApiError;
use rust_iss::domain::models::{IssApiResponse, IssPosition, Measure};
use rust_iss::repo::cache_repo::CacheRepo;
use rust_iss::repo::iss_repo::IssRepo;
use rust_iss::services::iss_service::IssService;

fn measure(x: f64) -> Measure {
    Measure { bits: x.to_bits() }
}

fn value(m: Measure) -> f64 {
    f64::from_bits(m.bits)
}

fn position(timestamp: i64) -> IssPosition {
    IssPosition {
        id: None,
        latitude: measure(45.5),
        longitude: measure(-122.6),
        altitude: measure(408.5),
        velocity: measure(27600.0),
        timestamp,
        fetched_at: timestamp,
    }
}

#[test]
fn test_iss_service_creation() {
    let service = IssService::new(IssRepo::new());
    let history = service.get_history(None, None, 10).unwrap();
    assert!(history.is_empty(), "IssService structure is valid");
}

#[test]
fn test_timestamp_conversion() {
    let unix_timestamp = 1638360000i64;
    let instant = instant_from_seconds(unix_timestamp);

    assert!(instant.is_some());
    assert_eq!(instant.unwrap(), unix_timestamp);
}

#[test]
fn test_position_data_integrity() {
    let position = IssPosition {
        id: None,
        latitude: measure(51.5074),
        longitude: measure(-0.1278),
        altitude: measure(415.3),
        velocity: measure(27580.5),
        timestamp: 1638360000,
        fetched_at: 1638360001,
    };

    assert_eq!(value(position.latitude), 51.5074);
    assert_eq!(value(position.longitude), -0.1278);
    assert_eq!(value(position.altitude), 415.3);
    assert_eq!(value(position.velocity), 27580.5);
    assert!(position.id.is_none());
}

#[test]
fn test_api_response_to_position_conversion() {
    let api_data = IssApiResponse {
        latitude: measure(45.5),
        longitude: measure(-122.6),
        altitude: measure(408.5),
        velocity: measure(27600.0),
        timestamp: 1638360000,
    };

    let mut service = IssService::new(IssRepo::new());
    let mut cache = CacheRepo::new();
    let position = service.fetch_and_store(&mut cache, Ok(api_data), 1638360005).unwrap();

    assert_eq!(value(position.latitude), value(api_data.latitude));
    assert_eq!(value(position.longitude), value(api_data.longitude));
    assert_eq!(value(position.altitude), value(api_data.altitude));
    assert_eq!(value(position.velocity), value(api_data.velocity));
    assert_eq!(position.timestamp, 1638360000);
    assert_eq!(position.fetched_at, 1638360005);
    assert!(position.id.is_none());
}

#[test]
fn test_date_range_query() {
    let day = 86_400i64;
    let now = 1_700_000_000i64;
    let start = now - 7 * day;
    let end = now;

    let mut repo = IssRepo::new();
    repo.save(&position(now - day)).unwrap();
    repo.save(&position(now - 5 * day)).unwrap();
    repo.save(&position(now - 10 * day)).unwrap();

    let filtered = repo.get_history(Some(start), Some(end), 100).unwrap();

    assert_eq!(filtered.len(), 2);
    assert_eq!(filtered[0].timestamp, now - day);
    assert_eq!(filtered[1].timestamp, now - 5 * day);
}

#[test]
fn test_limit_enforcement() {
    let mut repo = IssRepo::new();
    for n in 1..=10i64 {
        repo.save(&position(1000 - n)).unwrap();
    }

    let limit = 5;
    let limited = repo.get_history(None, None, limit).unwrap();

    assert_eq!(limited.len(), 5);
    assert_eq!(limited[0].id, Some(1));
    assert_eq!(limited[4].id, Some(5));
}

#[test]
fn history_with_negative_limit_is_a_store_error() {
    let repo = IssRepo::new();
    let r = repo.get_history(None, None, -1);
    assert!(matches!(r, Err(ApiError::DatabaseError(_))));
}

#[test]
fn timerange_lists_oldest_first_and_includes_both_ends() {
    let mut repo = IssRepo::new();
    for ts in [10i64, 40, 20, 30, 50] {
        repo.save(&position(ts)).unwrap();
    }
    let rows = repo.get_by_timerange(20, 40);
    let stamps: Vec<i64> = rows.iter().map(|r| r.timestamp).collect();
    assert_eq!(stamps, vec![20, 30, 40]);
}

#[test]
fn latest_is_the_row_with_the_largest_timestamp() {
    let mut repo = IssRepo::new();
    assert!(repo.get_latest().is_none());
    for ts in [10i64, 40, 20] {
        repo.save(&position(ts)).unwrap();
    }
    assert_eq!(repo.get_latest().unwrap().timestamp, 40);
    assert_eq!(repo.count(), 3);
}

#[test]
fn upsert_twice_keeps_one_row_with_the_second_values() {
    let mut repo = IssRepo::new();
    let first = position(77);
    let mut second = position(77);
    second.altitude = measure(500.25);
    second.fetched_at = 99;
    repo.save(&first).unwrap();
    repo.save(&second).unwrap();
    let rows = repo.get_history(None, None, 100).unwrap();
    assert_eq!(rows.len(), 1);
    assert_eq!(rows[0].id, Some(1));
    assert_eq!(value(rows[0].altitude), 500.25);
    assert_eq!(rows[0].fetched_at, 99);
}

#[test]
fn last_position_prefers_cache_then_store_then_not_found() {
    let mut service = IssService::new(IssRepo::new());
    let mut cache = CacheRepo::new();

    let missing = service.get_last_position(None);
    match missing.value {
        Err(ApiError::NotFound(m)) => assert_eq!(m, "ISS position not found"),
        _ => panic!("expected not found"),
    }
    assert!(missing.fill.is_none());

    let api = IssApiResponse {
        latitude: measure(1.0),
        longitude: measure(2.0),
        altitude: measure(3.0),
        velocity: measure(4.0),
        timestamp: 1_700_000_000,
    };
    service.fetch_and_store(&mut cache, Ok(api), 1_700_000_001).unwrap();

    let stored = service.get_last_position(None);
    assert_eq!(stored.value.unwrap().timestamp, 1_700_000_000);
    let fill = stored.fill.unwrap();
    assert_eq!(fill.key, "iss:last");
    assert_eq!(fill.ttl_seconds, 300);

    let cached = service.get_last_position(Some(position(5)));
    assert_eq!(cached.value.unwrap().timestamp, 5);
    assert!(cached.fill.is_none());
}

#[test]
fn current_position_is_served_however_old_and_cached_only_while_fresh() {
    let mut service = IssService::new(IssRepo::new());
    let mut cache = CacheRepo::new();

    let nothing = service.get_current(None, 5);
    match nothing.value {
        Err(ApiError::NotFound(m)) => assert_eq!(m, "ISS position not found"),
        _ => panic!("expected not found"),
    }
    assert!(nothing.fill.is_none());

    let api = IssApiResponse {
        latitude: measure(1.0),
        longitude: measure(2.0),
        altitude: measure(3.0),
        velocity: measure(4.0),
        timestamp: 1_700_000_000,
    };
    let saved = service.fetch_and_save(&mut cache, Ok(api), 1_700_000_100);
    assert_eq!(saved.value.unwrap().timestamp, 1_700_000_100);
    let fill = saved.fill.unwrap();
    assert_eq!(fill.key, "iss:current");
    assert_eq!(fill.ttl_seconds, 60);

    let fresh = service.get_current(None, 1_700_000_100 + 299);
    assert_eq!(fresh.value.unwrap().fetched_at, 1_700_000_100);
    let fill = fresh.fill.unwrap();
    assert_eq!(fill.key, "iss:current");
    assert_eq!(fill.ttl_seconds, 60);

    let stale = service.get_current(None, 1_700_000_100 + 300);
    let served = stale.value.unwrap();
    assert_eq!(served.timestamp, 1_700_000_100);
    assert_eq!(served.fetched_at, 1_700_000_100);
    assert_eq!(served.id, Some(1));
    assert!(stale.fill.is_none());

    let after_an_outage = service.get_current(None, 1_700_000_100 + 86_400 * 30);
    assert_eq!(after_an_outage.value.unwrap().timestamp, 1_700_000_100);
    assert!(after_an_outage.fill.is_none());

    let cached = service.get_current(Some(position(5)), 1_700_000_100 + 86_400);
    assert_eq!(cached.value.unwrap().timestamp, 5);
    assert!(cached.fill.is_none());
}

#[test]
fn a_forced_refresh_drops_every_cached_position() {
    let mut service = IssService::new(IssRepo::new());
    let mut cache = CacheRepo::new();
    for key in ["iss:last", "iss:current", "iss:history", "osdr:all:50"] {
        cache.set(key, "older", 300, 10).unwrap();
    }
    let api = IssApiResponse {
        latitude: measure(1.0),
        longitude: measure(2.0),
        altitude: measure(3.0),
        velocity: measure(4.0),
        timestamp: 1_700_000_000,
    };
    service.fetch_and_save(&mut cache, Ok(api), 20).value.unwrap();
    assert!(cache.get("iss:last", 20).is_none());
    assert!(cache.get("iss:current", 20).is_none());
    assert!(cache.get("iss:history", 20).is_none());
    assert_eq!(cache.get("osdr:all:50", 20).unwrap(), "older");

    cache.set("iss:last", "kept", 300, 20).unwrap();
    let failed = service.fetch_and_save(&mut cache, Err(ApiError::UpstreamError("down".to_string())), 30);
    assert!(failed.value.is_err());
    assert!(failed.fill.is_none());
    assert_eq!(cache.get("iss:last", 30).unwrap(), "kept");
    assert_eq!(service.get_history(None, None, 10).unwrap().len(), 1);
}

#[test]
fn a_page_of_history_holds_the_most_recent_rows_in_range() {
    let mut repo = IssRepo::new();
    for ts in [50i64, 10, 40, 20, 30, 60, 70] {
        repo.save(&position(ts)).unwrap();
    }
    let stamps = |rows: Vec<IssPosition>| rows.iter().map(|r| r.timestamp).collect::<Vec<i64>>();
    assert_eq!(stamps(repo.get_history(Some(20), Some(60), 3).unwrap()), vec![60, 50, 40]);
    assert_eq!(stamps(repo.get_history(Some(20), Some(60), 10).unwrap()), vec![60, 50, 40, 30, 20]);
    assert_eq!(stamps(repo.get_history(None, Some(25), 10).unwrap()), vec![20, 10]);
    assert_eq!(stamps(repo.get_history(Some(65), None, 10).unwrap()), vec![70]);
    assert_eq!(stamps(repo.get_history(Some(61), Some(69), 10).unwrap()), Vec::<i64>::new());
    assert_eq!(stamps(repo.get_history(None, None, 0).unwrap()), Vec::<i64>::new());
    assert_eq!(repo.count(), 7);
}
