use rust_iss::clients::http::{exhausted, FetchFailure};
use rust_iss::clients::iss_client::IssClient;
use rust_iss::clients::retry::{RetryAction, RetryEvent, RetryState};
use rust_iss::domain::error::ApiError;
use rust_iss::domain::models::{IssApiResponse, Measure};
use rust_iss::repo::cache_repo::CacheRepo;
use rust_iss::repo::iss_repo::IssRepo;
use rust_iss::scheduler::locks::LockTable;
use rust_iss::scheduler::{
    lock_event, CycleOutcome, SourceDescriptor, SourceId, TaskAction, TaskEvent, TaskNote,
    TaskState,
};
use rust_iss::services::iss_service::IssService;

fn measure(x: f64) -> Measure {
    Measure { bits: x.to_bits() }
}

fn reading(timestamp: i64, altitude: f64) -> IssApiResponse {
    IssApiResponse {
        latitude: measure(45.5),
        longitude: measure(-122.6),
        altitude: measure(altitude),
        velocity: measure(27600.0),
        timestamp,
    }
}

const T1: i64 = 1_700_000_000;

#[test]
fn scenario_fresh_fetch_cold_cache() {
    let mut service = IssService::new(IssRepo::new());
    let mut cache = CacheRepo::new();

    let stored = service.fetch_and_store(&mut cache, Ok(reading(T1, 408.5)), T1 + 2).unwrap();
    assert_eq!(stored.timestamp, T1);

    let rows = service.get_history(None, None, 100).unwrap();
    assert_eq!(rows.len(), 1);
    assert_eq!(rows[0].timestamp, T1);
    assert_eq!(rows[0].id, Some(1));

    assert!(cache.get("iss:last", T1 + 2).is_none());
    assert!(!cache.is_cached("iss:last", T1 + 2));

    let read = service.get_last_position(None);
    let fill = read.fill.unwrap();
    cache.set(&fill.key, "serialized position", fill.ttl_seconds, T1 + 3).unwrap();
    assert_eq!(cache.get("iss:last", T1 + 3).unwrap(), "serialized position");
}

#[test]
fn scenario_warm_cache_is_invalidated_by_a_cycle() {
    let mut service = IssService::new(IssRepo::new());
    let mut cache = CacheRepo::new();
    cache.set("iss:last", "old position", 300, T1).unwrap();
    cache.set("iss:current", "old position", 60, T1).unwrap();
    cache.set("iss:history", "old history", 300, T1).unwrap();
    cache.set("osdr:all:50", "listing", 300, T1).unwrap();

    service.fetch_and_store(&mut cache, Ok(reading(T1, 408.5)), T1 + 1).unwrap();

    assert!(cache.get("iss:last", T1 + 1).is_none());
    assert!(cache.get("iss:current", T1 + 1).is_none());
    assert!(cache.get("iss:history", T1 + 1).is_none());
    assert!(!cache.is_cached("iss:last", T1 + 1));
    assert!(!cache.is_cached("iss:current", T1 + 1));
    assert_eq!(cache.get("osdr:all:50", T1 + 1).unwrap(), "listing");
}

#[test]
fn scenario_duplicate_fetch() {
    let mut service = IssService::new(IssRepo::new());
    let mut cache = CacheRepo::new();

    service.fetch_and_store(&mut cache, Ok(reading(T1, 408.5)), T1 + 2).unwrap();
    service.fetch_and_store(&mut cache, Ok(reading(T1, 411.0)), T1 + 122).unwrap();

    let rows = service.get_history(None, None, 100).unwrap();
    assert_eq!(rows.len(), 1);
    assert_eq!(rows[0].timestamp, T1);
    assert_eq!(f64::from_bits(rows[0].altitude.bits), 411.0);
    assert_eq!(rows[0].fetched_at, T1 + 122);
    assert_eq!(rows[0].id, Some(1));
}

#[test]
fn scenario_same_cycle_twice_leaves_storage_unchanged() {
    let mut service = IssService::new(IssRepo::new());
    let mut cache = CacheRepo::new();

    service.fetch_and_store(&mut cache, Ok(reading(T1, 408.5)), T1 + 2).unwrap();
    let before = service.get_history(None, None, 100).unwrap();
    service.fetch_and_store(&mut cache, Ok(reading(T1, 408.5)), T1 + 2).unwrap();
    let after = service.get_history(None, None, 100).unwrap();

    assert_eq!(before, after);
    assert!(cache.get("iss:last", T1 + 2).is_none());
}

#[test]
fn scenario_upstream_down() {
    let plan = IssClient::new("https://upstream.invalid".to_string()).fetch_current_position();
    let policy = plan.profile.policy;
    assert_eq!(policy.max_retries, 3);

    let mut state = policy.start();
    let mut attempts = 0;
    let mut pauses = Vec::new();
    loop {
        attempts += 1;
        let (next, action) = policy.step(state, RetryEvent::AttemptFailed);
        state = next;
        match action {
            RetryAction::Sleep { delay_ms } => {
                pauses.push(delay_ms);
                let (resumed, again) = policy.step(state, RetryEvent::BackoffElapsed);
                assert_eq!(again, RetryAction::Attempt);
                state = resumed;
            }
            RetryAction::GiveUp => break,
            other => panic!("unexpected action {:?}", other),
        }
    }
    assert_eq!(attempts, 4);
    assert_eq!(state, RetryState::Exhausted { attempts: 4 });
    assert_eq!(pauses, vec![1000, 2000, 3000]);

    let last = FetchFailure::Transport("connection refused".to_string());
    let failure = exhausted(&plan.api, policy.max_retries, &last);
    match &failure {
        ApiError::UpstreamError(m) => {
            assert_eq!(m, "ISS API failed after 3 retries: Request failed: connection refused")
        }
        _ => panic!("expected an upstream error"),
    }

    let mut service = IssService::new(IssRepo::new());
    let mut cache = CacheRepo::new();
    service.fetch_and_store(&mut cache, Ok(reading(T1, 408.5)), T1 + 2).unwrap();
    cache.set("iss:last", "cached position", 300, T1 + 3).unwrap();
    cache.set("iss:current", "cached position", 300, T1 + 3).unwrap();
    let rows_before = service.get_history(None, None, 100).unwrap();

    let r = service.fetch_and_store(&mut cache, Err(failure), T1 + 200);
    assert!(matches!(r, Err(ApiError::UpstreamError(_))));

    let rows_after = service.get_history(None, None, 100).unwrap();
    assert_eq!(rows_before, rows_after);
    assert_eq!(cache.get("iss:last", T1 + 200).unwrap(), "cached position");
    assert_eq!(cache.get("iss:current", T1 + 200).unwrap(), "cached position");
}

#[test]
fn scenario_lock_contention() {
    let source = SourceDescriptor {
        source: SourceId::Iss,
        poll_interval_seconds: 120,
        lock_id: 1001,
    };
    let instance_a = 1u64;
    let instance_b = 2u64;
    let mut locks = LockTable::new();
    let service = IssService::new(IssRepo::new());

    assert!(locks.try_acquire(source.lock_id, instance_a));

    let first = source.begin();
    assert_eq!(first.state, TaskState::Idle);
    assert_eq!(first.action, TaskAction::AwaitTick { seconds: 120 });

    let ticked = source.step(first.state, TaskEvent::Tick);
    assert_eq!(ticked.state, TaskState::AttemptingLock);
    assert_eq!(ticked.action, TaskAction::TryAcquire { lock_id: 1001 });

    let granted = locks.try_acquire(source.lock_id, instance_b);
    assert!(!granted);

    let skipped = source.step(ticked.state, lock_event(Ok(granted)));
    assert_eq!(skipped.state, TaskState::Idle);
    assert_eq!(skipped.action, TaskAction::AwaitTick { seconds: 120 });
    assert_eq!(skipped.note, TaskNote::LockContended { lock_id: 1001 });

    assert!(service.get_history(None, None, 100).unwrap().is_empty());
    assert_eq!(locks.holder_of(1001), Some(instance_a));

    assert!(locks.release(source.lock_id, instance_a));
    assert!(locks.try_acquire(source.lock_id, instance_b));
}

#[test]
fn scenario_failed_cycle_still_releases_the_lock() {
    let source = SourceDescriptor {
        source: SourceId::Osdr,
        poll_interval_seconds: 7200,
        lock_id: 1002,
    };
    let mut locks = LockTable::new();

    let ticked = source.step(TaskState::Idle, TaskEvent::Tick);
    let granted = locks.try_acquire(1002, 7);
    let running = source.step(ticked.state, lock_event(Ok(granted)));
    assert_eq!(running.state, TaskState::Running);
    assert_eq!(running.action, TaskAction::RunCycle { source: SourceId::Osdr });
    assert_eq!(running.note, TaskNote::LockAcquired { lock_id: 1002 });

    let done =
        source.step(running.state, TaskEvent::CycleFinished { outcome: CycleOutcome::Failed });
    assert_eq!(done.state, TaskState::Idle);
    assert_eq!(done.action, TaskAction::ReleaseThenAwaitTick { lock_id: 1002, seconds: 7200 });
    assert_eq!(done.note, TaskNote::CycleFailed { source: SourceId::Osdr });

    assert!(locks.release(1002, 7));
    assert_eq!(locks.holder_of(1002), None);
}

#[test]
fn invalid_timestamp_stops_the_cycle_before_storage() {
    let mut service = IssService::new(IssRepo::new());
    let mut cache = CacheRepo::new();
    cache.set("iss:last", "cached", 300, 0).unwrap();

    let r = service.fetch_and_store(&mut cache, Ok(reading(i64::MAX, 1.0)), 5);
    match r {
        Err(ApiError::InternalError(m)) => assert_eq!(m, "Invalid timestamp"),
        _ => panic!("expected an internal error"),
    }
    assert!(service.get_history(None, None, 10).unwrap().is_empty());
    assert_eq!(cache.get("iss:last", 5).unwrap(), "cached");
}
