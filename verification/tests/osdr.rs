use rust_iss::clients::http::{FallbackPolicy, FetchFailure};
use rust_iss::clients::osdr_client::{OsdrClient, OsdrRequest};
use rust_iss::domain::error::ApiError;
use rust_iss::domain::models::{OsdrApiDataset, OsdrApiResponse, OsdrDataset, SyncResponse};
use rust_iss::repo::cache_repo::CacheRepo;
use rust_iss::repo::osdr_repo::{batch_columns, OsdrRepo};
use rust_iss::services::osdr_service::{
    list_cache_key, sync_step, to_dataset, transform, OsdrService, SyncStep,
};

fn dataset(id: &str, title: &str, updated_at: i64) -> OsdrDataset {
    OsdrDataset {
        id: None,
        dataset_id: id.to_string(),
        title: title.to_string(),
        description: None,
        release_date: None,
        updated_at,
    }
}

fn reported(id: &str, title: &str, day: Option<&str>) -> OsdrApiDataset {
    OsdrApiDataset {
        dataset_id: id.to_string(),
        title: title.to_string(),
        description: Some("about".to_string()),
        release_date: day.map(|d| d.to_string()),
    }
}

fn ids(rows: &[OsdrDataset]) -> Vec<String> {
    rows.iter().map(|r| r.dataset_id.clone()).collect()
}

#[test]
fn save_inserts_then_overwrites_in_place() {
    let mut repo = OsdrRepo::new();
    repo.save(dataset("OSD-1", "first title", 10)).unwrap();
    repo.save(dataset("OSD-1", "second title", 20)).unwrap();

    assert_eq!(repo.count(), 1);
    let row = repo.get_by_id("OSD-1").unwrap();
    assert_eq!(row.title, "second title");
    assert_eq!(row.updated_at, 20);
    assert_eq!(row.id, Some(1));
    assert!(repo.get_by_id("OSD-2").is_none());
}

#[test]
fn listing_is_most_recently_written_first() {
    let mut repo = OsdrRepo::new();
    repo.save(dataset("a", "A", 10)).unwrap();
    repo.save(dataset("b", "B", 30)).unwrap();
    repo.save(dataset("c", "C", 20)).unwrap();
    assert_eq!(ids(&repo.get_all(10).unwrap()), vec!["b", "c", "a"]);

    repo.save(dataset("a", "A2", 40)).unwrap();
    assert_eq!(ids(&repo.get_all(10).unwrap()), vec!["a", "b", "c"]);
    assert_eq!(ids(&repo.get_all(2).unwrap()), vec!["a", "b"]);
    assert!(repo.get_all(0).unwrap().is_empty());
    assert!(matches!(repo.get_all(-1), Err(ApiError::DatabaseError(_))));
    assert_eq!(repo.get_by_id("a").unwrap().id, Some(1));
    assert_eq!(repo.get_by_id("c").unwrap().id, Some(3));
}

#[test]
fn batch_upsert_tolerates_an_empty_batch() {
    let mut repo = OsdrRepo::new();
    assert_eq!(repo.batch_upsert(&vec![]).unwrap(), 0);
    assert_eq!(repo.count(), 0);
}

#[test]
fn batch_upsert_is_idempotent() {
    let batch = vec![dataset("a", "A", 10), dataset("b", "B", 10), dataset("a", "A again", 11)];
    let mut repo = OsdrRepo::new();
    assert_eq!(repo.batch_upsert(&batch).unwrap(), 3);
    assert_eq!(repo.count(), 2);
    assert_eq!(repo.get_by_id("a").unwrap().title, "A again");

    assert_eq!(repo.batch_upsert(&batch).unwrap(), 3);
    assert_eq!(repo.count(), 2);
    assert_eq!(repo.get_by_id("a").unwrap().title, "A again");
    assert_eq!(repo.get_by_id("a").unwrap().id, Some(1));
    assert_eq!(repo.get_by_id("b").unwrap().id, Some(2));
}

#[test]
fn cleanup_drops_rows_older_than_the_cutoff() {
    let day = 86_400i64;
    let now = 100 * day;
    let mut repo = OsdrRepo::new();
    repo.save(dataset("fresh", "F", now - day)).unwrap();
    repo.save(dataset("edge", "E", now - 30 * day)).unwrap();
    repo.save(dataset("old", "O", now - 30 * day - 1)).unwrap();
    repo.save(dataset("ancient", "A", 0)).unwrap();

    assert_eq!(repo.delete_older_than(30, now), 2);
    assert_eq!(ids(&repo.get_all(10).unwrap()), vec!["fresh", "edge"]);
    assert_eq!(repo.delete_older_than(30, now), 0);
    assert_eq!(repo.delete_older_than(0, now + 1), 2);
    assert_eq!(repo.count(), 0);
}

#[test]
fn release_days_become_midnight_utc() {
    let with_day = transform(&reported("OSD-1", "T", Some("2019-06-01")), 5);
    assert_eq!(with_day.release_date, Some(1_559_347_200));
    assert_eq!(with_day.updated_at, 5);
    assert_eq!(with_day.dataset_id, "OSD-1");
    assert_eq!(with_day.title, "T");
    assert_eq!(with_day.description.as_deref(), Some("about"));
    assert!(with_day.id.is_none());

    assert_eq!(transform(&reported("x", "T", Some("1970-01-01")), 5).release_date, Some(0));
    assert_eq!(transform(&reported("x", "T", Some("1969-12-31")), 5).release_date, Some(-86_400));
    assert_eq!(transform(&reported("x", "T", Some("not a day")), 5).release_date, None);
    assert_eq!(transform(&reported("x", "T", Some("2019-13-01")), 5).release_date, None);
    assert_eq!(transform(&reported("x", "T", None), 5).release_date, None);

    let given = to_dataset(&reported("y", "U", Some("ignored")), Some(77), 9);
    assert_eq!(given.release_date, Some(77));
    assert_eq!(given.updated_at, 9);
}

#[test]
fn sync_stores_every_dataset_and_invalidates_the_listings() {
    let mut service = OsdrService::new(OsdrRepo::new());
    let mut cache = CacheRepo::new();
    for key in ["osdr:all:50", "osdr:all:20", "osdr:datasets", "iss:last"] {
        cache.set(key, "cached", 1800, 0).unwrap();
    }
    let catalogue = OsdrApiResponse {
        results: vec![
            reported("OSD-1", "one", Some("2019-06-01")),
            reported("OSD-2", "two", None),
        ],
    };

    assert_eq!(service.sync_datasets(&mut cache, Ok(catalogue), 100).unwrap(), 2);

    assert!(cache.get("osdr:all:50", 1).is_none());
    assert!(cache.get("osdr:all:20", 1).is_none());
    assert!(cache.get("osdr:datasets", 1).is_none());
    assert_eq!(cache.get("iss:last", 1).unwrap(), "cached");

    let page = service.get_all_datasets(50, None);
    let rows = page.value.unwrap();
    assert_eq!(rows.len(), 2);
    let fill = page.fill.unwrap();
    assert_eq!(fill.key, "osdr:all:50");
    assert_eq!(fill.ttl_seconds, 1800);
}

#[test]
fn sync_twice_with_the_same_catalogue_adds_nothing() {
    let mut service = OsdrService::new(OsdrRepo::new());
    let mut cache = CacheRepo::new();
    let catalogue = || OsdrApiResponse {
        results: vec![reported("OSD-1", "one", None), reported("OSD-2", "two", None)],
    };
    service.sync_datasets(&mut cache, Ok(catalogue()), 100).unwrap();
    service.sync_datasets(&mut cache, Ok(catalogue()), 100).unwrap();
    let rows = service.get_all_datasets(50, None).value.unwrap();
    assert_eq!(rows.len(), 2);
}

#[test]
fn a_failed_fetch_touches_neither_store_nor_cache() {
    let mut service = OsdrService::new(OsdrRepo::new());
    let mut cache = CacheRepo::new();
    cache.set("osdr:all:50", "cached", 1800, 0).unwrap();

    let r = service.sync_datasets(&mut cache, Err(ApiError::UpstreamError("down".to_string())), 1);
    match r {
        Err(ApiError::UpstreamError(m)) => assert_eq!(m, "down"),
        _ => panic!("expected the upstream error"),
    }
    assert_eq!(cache.get("osdr:all:50", 1).unwrap(), "cached");
    assert!(service.get_all_datasets(50, None).value.unwrap().is_empty());
}

#[test]
fn an_empty_catalogue_is_not_a_failure() {
    let mut service = OsdrService::new(OsdrRepo::new());
    let mut cache = CacheRepo::new();
    let r = service.sync_datasets(&mut cache, Ok(OsdrApiResponse { results: vec![] }), 1);
    assert_eq!(r.unwrap(), 0);
}

#[test]
fn a_cached_page_is_served_as_it_is() {
    let service = OsdrService::new(OsdrRepo::new());
    let page = service.get_all_datasets(50, Some(vec![dataset("c", "C", 1)]));
    assert_eq!(ids(&page.value.unwrap()), vec!["c"]);
    assert!(page.fill.is_none());
    assert_eq!(list_cache_key(50), "osdr:all:50");
    assert_eq!(list_cache_key(-3), "osdr:all:-3");
}

#[test]
fn refresh_returns_the_listing_and_invites_caching() {
    let mut service = OsdrService::new(OsdrRepo::new());
    let mut cache = CacheRepo::new();
    for key in ["osdr:all:50", "osdr:datasets", "iss:last"] {
        cache.set(key, "cached", 1800, 0).unwrap();
    }
    let catalogue = OsdrApiResponse { results: vec![reported("OSD-1", "one", None)] };
    let r = service.fetch_and_cache(&mut cache, Ok(catalogue), 100);
    assert_eq!(ids(&r.value.unwrap()), vec!["OSD-1"]);
    let fill = r.fill.unwrap();
    assert_eq!(fill.key, "osdr:datasets");
    assert_eq!(fill.ttl_seconds, 3600);
    assert!(cache.get("osdr:all:50", 1).is_none());
    assert!(cache.get("osdr:datasets", 1).is_none());
    assert_eq!(cache.get("iss:last", 1).unwrap(), "cached");

    cache.set("osdr:all:50", "kept", 1800, 1).unwrap();
    let failed =
        service.fetch_and_cache(&mut cache, Err(ApiError::UpstreamError("down".to_string())), 200);
    assert!(matches!(failed.value, Err(ApiError::UpstreamError(_))));
    assert!(failed.fill.is_none());
    assert_eq!(cache.get("osdr:all:50", 2).unwrap(), "kept");
    assert_eq!(service.get_all_datasets(50, None).value.unwrap().len(), 1);
}

#[test]
fn a_dataset_reported_again_is_overwritten_in_place() {
    let mut service = OsdrService::new(OsdrRepo::new());
    let mut cache = CacheRepo::new();
    let first = OsdrApiResponse {
        results: vec![
            reported("OSD-1", "one", Some("2019-06-01")),
            reported("OSD-2", "two", None),
            reported("OSD-3", "three", None),
        ],
    };
    assert_eq!(service.sync_datasets(&mut cache, Ok(first), 100).unwrap(), 3);

    let second = OsdrApiResponse {
        results: vec![
            reported("OSD-2", "two, draft", None),
            reported("OSD-2", "two, revised", Some("2020-01-02")),
        ],
    };
    assert_eq!(service.sync_datasets(&mut cache, Ok(second), 250).unwrap(), 2);

    let rows = service.get_all_datasets(50, None).value.unwrap();
    assert_eq!(rows.len(), 3);
    let again: Vec<&OsdrDataset> = rows.iter().filter(|d| d.dataset_id == "OSD-2").collect();
    assert_eq!(again.len(), 1);
    assert_eq!(again[0].title, "two, revised");
    assert_eq!(again[0].release_date, Some(1_577_923_200));
    assert_eq!(again[0].updated_at, 250);
    assert_eq!(again[0].id, Some(2));
    assert_eq!(rows[0].dataset_id, "OSD-2");

    let untouched: Vec<&OsdrDataset> = rows.iter().filter(|d| d.dataset_id == "OSD-1").collect();
    assert_eq!(untouched.len(), 1);
    assert_eq!(untouched[0].title, "one");
    assert_eq!(untouched[0].release_date, Some(1_559_347_200));
    assert_eq!(untouched[0].updated_at, 100);
    assert_eq!(untouched[0].id, Some(1));
}

#[test]
fn sync_summary_names_the_count() {
    let s = SyncResponse::new(5);
    assert_eq!(s.synced_count, 5);
    assert_eq!(s.message, "Successfully synced 5 datasets");
    assert_eq!(SyncResponse::new(0).message, "Successfully synced 0 datasets");
}

#[test]
fn the_placeholder_catalogue_has_five_known_datasets() {
    let client = OsdrClient::new(String::new(), String::new());
    let mock = client.get_mock_response();
    let found: Vec<(&str, Option<&str>)> = mock
        .results
        .iter()
        .map(|d| (d.dataset_id.as_str(), d.release_date.as_deref()))
        .collect();
    assert_eq!(
        found,
        vec![
            ("GLDS-379", Some("2019-06-01")),
            ("GLDS-120", Some("2019-04-11")),
            ("GLDS-38", Some("2018-09-15")),
            ("GLDS-47", Some("2017-03-20")),
            ("GLDS-251", Some("2020-11-08")),
        ]
    );
    assert_eq!(mock.results[1].title, "NASA Twins Study: Integrated multi-omics analysis");
    assert_eq!(
        mock.results[4].description.as_deref(),
        Some("Physiological adaptations of human cardiovascular system in space")
    );
}

#[test]
fn an_unconfigured_upstream_means_the_placeholder() {
    assert!(matches!(
        OsdrClient::new(String::new(), "k".to_string()).fetch_datasets(),
        OsdrRequest::Placeholder
    ));
    assert!(matches!(
        OsdrClient::new("http://mock-osdr".to_string(), "k".to_string()).fetch_datasets(),
        OsdrRequest::Placeholder
    ));
    match OsdrClient::new("https://osdr.example/api".to_string(), "k".to_string()).fetch_datasets()
    {
        OsdrRequest::Call(plan) => {
            assert_eq!(plan.api, "OSDR");
            assert_eq!(plan.url, "https://osdr.example/api");
            assert_eq!(plan.api_key.as_deref(), Some("k"));
            assert!(plan.header.is_none());
            assert_eq!(plan.profile.timeout_seconds, 10);
            assert_eq!(plan.profile.policy.max_retries, 1);
            assert_eq!(plan.profile.policy.base_delay_ms, 2000);
        }
        OsdrRequest::Placeholder => panic!("expected a call"),
    }
    match OsdrClient::new("https://osdr.example/api".to_string(), String::new()).fetch_datasets() {
        OsdrRequest::Call(plan) => assert!(plan.api_key.is_none()),
        OsdrRequest::Placeholder => panic!("expected a call"),
    }
}

#[test]
fn failures_are_surfaced_unless_the_client_is_told_otherwise() {
    let failing = || Err(FetchFailure::Transport("refused".to_string()));
    let strict = OsdrClient::new("https://osdr.example".to_string(), String::new());
    assert_eq!(strict.fallback, FallbackPolicy::Fail);
    match strict.try_fetch(failing()) {
        Err(FetchFailure::Transport(m)) => assert_eq!(m, "refused"),
        _ => panic!("expected the failure"),
    }

    let lenient = OsdrClient::new("https://osdr.example".to_string(), String::new())
        .with_fallback(FallbackPolicy::Placeholder);
    assert_eq!(lenient.try_fetch(failing()).unwrap().results.len(), 5);

    let real = OsdrApiResponse { results: vec![reported("OSD-1", "one", None)] };
    assert_eq!(lenient.try_fetch(Ok(real)).unwrap().results.len(), 1);
}

#[test]
fn a_batch_is_laid_out_in_columns() {
    assert!(batch_columns(&vec![]).is_none());

    let mut second = dataset("OSD-2", "two", 20);
    second.description = Some("about two".to_string());
    second.release_date = Some(1_559_347_200);
    second.id = Some(9);
    let columns = batch_columns(&vec![dataset("OSD-1", "one", 10), second]).unwrap();
    assert_eq!(columns.dataset_ids, vec!["OSD-1", "OSD-2"]);
    assert_eq!(columns.titles, vec!["one", "two"]);
    assert_eq!(columns.descriptions, vec![None, Some("about two".to_string())]);
    assert_eq!(columns.release_dates, vec![None, Some(1_559_347_200)]);
    assert_eq!(columns.updated_ats, vec![10, 20]);
}

#[test]
fn a_synchronisation_stops_at_the_first_refusal() {
    assert!(matches!(sync_step(3, 0, Ok(())), SyncStep::Save { index: 0 }));
    assert!(matches!(sync_step(3, 2, Ok(())), SyncStep::Save { index: 2 }));
    assert!(matches!(sync_step(3, 3, Ok(())), SyncStep::Finish { result: Ok(3) }));
    assert!(matches!(sync_step(0, 0, Ok(())), SyncStep::Finish { result: Ok(0) }));
    match sync_step(3, 1, Err(ApiError::DatabaseError("down".to_string()))) {
        SyncStep::Finish { result: Err(ApiError::DatabaseError(m)) } => assert_eq!(m, "down"),
        _ => panic!("expected the cycle to end with the failure"),
    }
}
