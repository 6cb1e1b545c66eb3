use rust_iss::domain::models::{
    HealthResponse, IssHistoryQuery, IssPosition, Measure, OsdrDataset,
};

fn measure(x: f64) -> Measure {
    Measure { bits: x.to_bits() }
}

fn value(m: Measure) -> f64 {
    f64::from_bits(m.bits)
}

#[test]
fn test_iss_position_creation() {
    let position = IssPosition {
        id: Some(1),
        latitude: measure(45.5),
        longitude: measure(-122.6),
        altitude: measure(408.5),
        velocity: measure(27600.0),
        timestamp: 1638360000,
        fetched_at: 1638360000,
    };

    assert_eq!(value(position.latitude), 45.5);
    assert_eq!(value(position.longitude), -122.6);
    assert_eq!(value(position.altitude), 408.5);
    assert_eq!(value(position.velocity), 27600.0);
}

#[test]
fn test_iss_position_latitude_range() {
    let position = IssPosition {
        id: None,
        latitude: measure(90.0),
        longitude: measure(0.0),
        altitude: measure(400.0),
        velocity: measure(27000.0),
        timestamp: 1638360000,
        fetched_at: 1638360000,
    };
    assert_eq!(value(position.latitude), 90.0);

    let position2 = IssPosition {
        id: None,
        latitude: measure(-90.0),
        longitude: measure(0.0),
        altitude: measure(400.0),
        velocity: measure(27000.0),
        timestamp: 1638360000,
        fetched_at: 1638360000,
    };
    assert_eq!(value(position2.latitude), -90.0);
}

#[test]
fn test_iss_history_query_validation() {
    let now = 1_700_000_000i64;
    let query = IssHistoryQuery {
        limit: Some(100),
        start_date: Some(now - 7 * 86_400),
        end_date: Some(now),
    };
    assert!(query.validate().is_ok());

    let invalid_query = IssHistoryQuery { limit: Some(5000), start_date: None, end_date: None };
    assert!(invalid_query.validate().is_err());

    let invalid_query2 = IssHistoryQuery { limit: Some(0), start_date: None, end_date: None };
    assert!(invalid_query2.validate().is_err());

    let query_no_limit = IssHistoryQuery { limit: None, start_date: None, end_date: None };
    assert!(query_no_limit.validate().is_ok());
}

#[test]
fn test_osdr_dataset_creation() {
    let dataset = OsdrDataset {
        id: Some(1),
        dataset_id: "OSD-123".to_string(),
        title: "Mouse RNA-Seq Study".to_string(),
        description: Some("Gene expression analysis".to_string()),
        release_date: Some(1638360000),
        updated_at: 1638360000,
    };

    assert_eq!(dataset.dataset_id, "OSD-123");
    assert_eq!(dataset.title, "Mouse RNA-Seq Study");
    assert!(dataset.description.is_some());
}

#[test]
fn test_date_range_validation() {
    let now = 1_700_000_000i64;
    let start = now - 7 * 86_400;
    let end = now;

    let query = IssHistoryQuery { limit: Some(100), start_date: Some(start), end_date: Some(end) };

    assert!(query.validate().is_ok());
    assert!(query.start_date.unwrap() < query.end_date.unwrap());
}

#[test]
fn history_limit_bounds_are_inclusive() {
    let at = |n: i32| IssHistoryQuery { limit: Some(n), start_date: None, end_date: None };
    assert!(at(1).validate().is_ok());
    assert!(at(1000).validate().is_ok());
    let err = at(1001).validate().unwrap_err();
    assert_eq!(err.field, "limit");
    assert_eq!(err.message, "limit must be between 1 and 1000");
    assert!(at(-5).validate().is_err());
    assert_eq!(at(7).effective_limit(), 7);
    let none = IssHistoryQuery { limit: None, start_date: None, end_date: None };
    assert_eq!(none.effective_limit(), 100);
}

#[test]
fn duplicate_keeps_every_field() {
    let dataset = OsdrDataset {
        id: Some(3),
        dataset_id: "OSD-9".to_string(),
        title: "T".to_string(),
        description: None,
        release_date: None,
        updated_at: 12,
    };
    let copy = dataset.duplicate();
    assert_eq!(copy.id, Some(3));
    assert_eq!(copy.dataset_id, "OSD-9");
    assert_eq!(copy.title, "T");
    assert!(copy.description.is_none());
    assert!(copy.release_date.is_none());
    assert_eq!(copy.updated_at, 12);
}

#[test]
fn a_healthy_service_says_ok() {
    let h = HealthResponse::new(1_700_000_000, "0.1.0".to_string());
    assert_eq!(h.status, "ok");
    assert_eq!(h.timestamp, 1_700_000_000);
    assert_eq!(h.version, "0.1.0");
}
