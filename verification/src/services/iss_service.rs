//! The collector for station positions and the reads served from it.

use crate::calendar::{instant_from_seconds, is_instant, seconds_between};
use crate::domain::error::{is_ids_used_up, is_negative_limit, ApiError};
use crate::domain::models::{IssApiResponse, IssPosition};
use crate::keyed::has_key;
use crate::repo::cache_repo::{spec_invalidate_all, CacheRepo, Cached, Invalidation};
use crate::repo::iss_repo::{most_recent_in_range, row_key, spec_history, upserted, IssRepo};
use crate::services::{invalidations_after, CacheFill, ReadThrough};
use vstd::prelude::*;

verus! {

/// Seconds the latest position stays cached.
pub const LAST_TTL_SECONDS: usize = 300;

/// Seconds the current position stays cached.
pub const CURRENT_TTL_SECONDS: usize = 60;

/// A stored position older than this many seconds is not cached as the
/// current one.
pub const CURRENT_MAX_AGE_SECONDS: i64 = 300;

pub open spec fn last_key() -> Seq<char> {
    "iss:last"@
}

pub open spec fn current_key() -> Seq<char> {
    "iss:current"@
}

pub open spec fn history_key() -> Seq<char> {
    "iss:history"@
}

pub open spec fn not_found_text() -> Seq<char> {
    "ISS position not found"@
}

pub open spec fn invalid_timestamp_text() -> Seq<char> {
    "Invalid timestamp"@
}

/// The record made of what the source reported, observed at `timestamp`
/// and written at `now`. It has no surrogate id yet.
pub open spec fn spec_position(api: IssApiResponse, timestamp: i64, now: i64) -> IssPosition {
    IssPosition {
        id: None,
        latitude: api.latitude,
        longitude: api.longitude,
        altitude: api.altitude,
        velocity: api.velocity,
        timestamp,
        fetched_at: now,
    }
}

/// The record to store for what a fetch returned, given what the calendar
/// made of the reported timestamp: the failure of the fetch if it failed,
/// an internal error if the timestamp is not an instant, else the record.
pub fn to_position(
    fetched: Result<IssApiResponse, ApiError>,
    checked: Option<i64>,
    now: i64,
) -> (r: Result<IssPosition, ApiError>)
    ensures
        match fetched {
            Err(e) => r == Err::<IssPosition, ApiError>(e),
            Ok(api) => match checked {
                None => r matches Err(ApiError::InternalError(m)) && m@
                    == invalid_timestamp_text(),
                Some(ts) => r == Ok::<IssPosition, ApiError>(spec_position(api, ts, now)),
            },
        },
{
    let api = match fetched {
        Ok(api) => api,
        Err(e) => {
            return Err(e);
        },
    };
    match checked {
        Some(timestamp) => Ok(
            IssPosition {
                id: None,
                latitude: api.latitude,
                longitude: api.longitude,
                altitude: api.altitude,
                velocity: api.velocity,
                timestamp,
                fetched_at: now,
            },
        ),
        None => Err(ApiError::InternalError(String::from_str("Invalid timestamp"))),
    }
}

/// The cache once a newly stored position has been made known to it: no
/// entry that could still serve an earlier position is left, neither the
/// latest position, nor the current one, nor the history.
pub open spec fn positions_dropped(cache: Map<Seq<char>, Cached>) -> Map<Seq<char>, Cached> {
    cache.remove(last_key()).remove(current_key()).remove(history_key())
}

/// What is dropped from the cache once a position has been stored, by a
/// collection cycle or by a forced refresh: the cached latest position, the
/// cached current position and the cached history.
pub fn position_invalidations() -> (invs: Vec<Invalidation>)
    ensures
        invs@.len() == 3,
        invs@[0] matches Invalidation::Key(k) && k@ == last_key(),
        invs@[1] matches Invalidation::Key(k) && k@ == current_key(),
        invs@[2] matches Invalidation::Key(k) && k@ == history_key(),
        forall|cache: Map<Seq<char>, Cached>| #[trigger]
            spec_invalidate_all(cache, invs@) == positions_dropped(cache),
{
    let mut invs: Vec<Invalidation> = Vec::new();
    invs.push(Invalidation::Key(String::from_str("iss:last")));
    invs.push(Invalidation::Key(String::from_str("iss:current")));
    invs.push(Invalidation::Key(String::from_str("iss:history")));
    proof {
        assert forall|cache: Map<Seq<char>, Cached>| #[trigger]
            spec_invalidate_all(cache, invs@) == positions_dropped(cache) by {
            reveal_with_fuel(spec_invalidate_all, 4);
            let two = invs@.drop_last();
            let one = two.drop_last();
            assert(one.drop_last().len() == 0);
            assert(one.last() == invs@[0]);
            assert(two.last() == invs@[1]);
            assert(invs@.last() == invs@[2]);
        }
    }
    invs
}

/// What a read of the latest position comes to after a cache miss: the
/// most recent stored position, which is then worth caching, or a
/// not-found error when nothing is stored.
pub fn last_after_miss(stored: Option<IssPosition>) -> (r: ReadThrough<IssPosition>)
    ensures
        match stored {
            Some(pos) => {
                &&& r.value == Ok::<IssPosition, ApiError>(pos)
                &&& r.fill is Some
                &&& r.fill->0.key@ == last_key()
                &&& r.fill->0.ttl_seconds == LAST_TTL_SECONDS
            },
            None => {
                &&& r.value matches Err(ApiError::NotFound(m))
                &&& m@ == not_found_text()
                &&& r.fill is None
            },
        },
{
    match stored {
        Some(pos) => ReadThrough {
            value: Ok(pos),
            fill: Some(
                CacheFill { key: String::from_str("iss:last"), ttl_seconds: LAST_TTL_SECONDS },
            ),
        },
        None => ReadThrough {
            value: Err(ApiError::NotFound(String::from_str("ISS position not found"))),
            fill: None,
        },
    }
}

/// A position written at `fetched_at` is fresh at `now`: it was written
/// less than five minutes before.
pub open spec fn is_fresh(fetched_at: i64, now: i64) -> bool {
    now - fetched_at < CURRENT_MAX_AGE_SECONDS
}

/// What a read of the current position comes to after a cache miss: the
/// most recent stored position, however long ago it was written, or a
/// not-found error when nothing is stored. Only a fresh position is worth
/// caching as the current one; an older one is served as it is and shows
/// its age in `fetched_at`.
pub fn current_after_miss(stored: Option<IssPosition>, now: i64) -> (r: ReadThrough<IssPosition>)
    ensures
        match stored {
            Some(pos) => {
                &&& r.value == Ok::<IssPosition, ApiError>(pos)
                &&& r.fill is Some <==> is_fresh(pos.fetched_at, now)
                &&& r.fill matches Some(fill) ==> fill.key@ == current_key() && fill.ttl_seconds
                    == CURRENT_TTL_SECONDS
            },
            None => {
                &&& r.value matches Err(ApiError::NotFound(m))
                &&& m@ == not_found_text()
                &&& r.fill is None
            },
        },
{
    match stored {
        Some(pos) => {
            let fill = if seconds_between(pos.fetched_at, now) < CURRENT_MAX_AGE_SECONDS as i128 {
                Some(
                    CacheFill {
                        key: String::from_str("iss:current"),
                        ttl_seconds: CURRENT_TTL_SECONDS,
                    },
                )
            } else {
                None
            };
            ReadThrough { value: Ok(pos), fill }
        },
        None => ReadThrough {
            value: Err(ApiError::NotFound(String::from_str("ISS position not found"))),
            fill: None,
        },
    }
}

/// The invitation to cache a position just stored by a forced refresh.
pub fn refresh_fill() -> (f: CacheFill)
    ensures
        f.key@ == current_key(),
        f.ttl_seconds == CURRENT_TTL_SECONDS,
{
    CacheFill { key: String::from_str("iss:current"), ttl_seconds: CURRENT_TTL_SECONDS }
}

/// The surrogate id the next new row gets once a position observed at
/// `timestamp` has been stored: one further on if that needed a new row,
/// the same if the timestamp had a row already.
pub open spec fn spec_fresh_after(before: IssRepo, timestamp: i64) -> int {
    if has_key(before@, row_key(), timestamp) {
        before.fresh_id() as int
    } else {
        before.fresh_id() + 1
    }
}

pub struct IssService {
    iss_repo: IssRepo,
}

impl IssService {
    pub closed spec fn repo(&self) -> IssRepo {
        self.iss_repo
    }

    pub open spec fn wf(&self) -> bool {
        self.repo().wf()
    }

    pub fn new(iss_repo: IssRepo) -> (s: IssService)
        requires
            iss_repo.wf(),
        ensures
            s.wf(),
            s.repo() == iss_repo,
    {
        IssService { iss_repo }
    }

    /// The most recent position: the cached one if the caller found one,
    /// else the most recent stored one, which is then worth caching; a
    /// not-found error when nothing is stored.
    pub fn get_last_position(&self, cached: Option<IssPosition>) -> (r: ReadThrough<IssPosition>)
        requires
            self.wf(),
        ensures
            match cached {
                Some(c) => r.value == Ok::<IssPosition, ApiError>(c) && r.fill is None,
                None => if self.repo()@.len() > 0 {
                    &&& r.value == Ok::<IssPosition, ApiError>(self.repo()@[0])
                    &&& r.fill is Some
                    &&& r.fill->0.key@ == last_key()
                    &&& r.fill->0.ttl_seconds == LAST_TTL_SECONDS
                } else {
                    &&& r.value matches Err(ApiError::NotFound(m))
                    &&& m@ == not_found_text()
                    &&& r.fill is None
                },
            },
    {
        if let Some(c) = cached {
            return ReadThrough { value: Ok(c), fill: None };
        }
        last_after_miss(self.iss_repo.get_latest())
    }

    /// One collection cycle, given what the calendar made of the reported
    /// timestamp: stores what the source reported and drops every cached
    /// entry that could still serve an earlier position.
    /// On any failure neither the repository nor the cache is touched.
    pub fn store_fetched(
        &mut self,
        cache: &mut CacheRepo,
        fetched: Result<IssApiResponse, ApiError>,
        checked: Option<i64>,
        now: i64,
    ) -> (r: Result<IssPosition, ApiError>)
        requires
            old(self).wf(),
            old(cache).wf(),
        ensures
            final(self).wf(),
            final(cache).wf(),
            match fetched {
                Err(e) => r == Err::<IssPosition, ApiError>(e),
                Ok(api) => match checked {
                    None => r matches Err(ApiError::InternalError(m)) && m@
                        == invalid_timestamp_text(),
                    Some(ts) => if !has_key(old(self).repo()@, row_key(), ts) && old(self).repo().fresh_id() == i32::MAX {
                        r is Err && is_ids_used_up(r->Err_0)
                    } else {
                        &&& r == Ok::<IssPosition, ApiError>(spec_position(api, ts, now))
                        &&& upserted(
                            old(self).repo()@,
                            old(self).repo().fresh_id(),
                            spec_position(api, ts, now),
                            final(self).repo()@,
                        )
                        &&& final(self).repo().fresh_id() == spec_fresh_after(
                            old(self).repo(),
                            ts,
                        )
                        &&& final(cache)@ == positions_dropped(old(cache)@)
                    },
                },
            },
            r is Err ==> final(self).repo()@ == old(self).repo()@ && final(self).repo().fresh_id() == old(self).repo().fresh_id() && final(cache)@ == old(cache)@,
    {
        let position = match to_position(fetched, checked, now) {
            Ok(position) => position,
            Err(e) => {
                return Err(e);
            },
        };
        let stored = self.iss_repo.save(&position);
        let invs = invalidations_after(&stored, position_invalidations());
        cache.invalidate_all(&invs);
        proof {
            if stored is Err {
                assert(invs@.len() == 0);
            }
        }
        match stored {
            Ok(()) => Ok(position),
            Err(e) => Err(e),
        }
    }

    /// One collection cycle: asks the calendar about the reported
    /// timestamp, stores the position and drops every cached entry that
    /// could still serve an earlier position. The cycle succeeds whenever
    /// the fetch did, the reported timestamp is an instant of the calendar
    /// and the store has a surrogate id left for a new row. On any failure
    /// neither the repository nor the cache is touched.
    pub fn fetch_and_store(
        &mut self,
        cache: &mut CacheRepo,
        fetched: Result<IssApiResponse, ApiError>,
        now: i64,
    ) -> (r: Result<IssPosition, ApiError>)
        requires
            old(self).wf(),
            old(cache).wf(),
        ensures
            final(self).wf(),
            final(cache).wf(),
            match fetched {
                Err(e) => r == Err::<IssPosition, ApiError>(e),
                Ok(api) => if !is_instant(api.timestamp) {
                    r matches Err(ApiError::InternalError(m)) && m@ == invalid_timestamp_text()
                } else if !has_key(old(self).repo()@, row_key(), api.timestamp) && old(
                    self,
                ).repo().fresh_id() == i32::MAX {
                    r is Err && is_ids_used_up(r->Err_0)
                } else {
                    &&& r == Ok::<IssPosition, ApiError>(spec_position(api, api.timestamp, now))
                    &&& upserted(
                        old(self).repo()@,
                        old(self).repo().fresh_id(),
                        spec_position(api, api.timestamp, now),
                        final(self).repo()@,
                    )
                    &&& final(self).repo().fresh_id() == spec_fresh_after(
                        old(self).repo(),
                        api.timestamp,
                    )
                    &&& final(cache)@ == positions_dropped(old(cache)@)
                },
            },
            r is Err ==> final(self).repo()@ == old(self).repo()@ && final(self).repo().fresh_id() == old(self).repo().fresh_id() && final(cache)@ == old(cache)@,
    {
        let checked = match &fetched {
            Ok(api) => instant_from_seconds(api.timestamp),
            Err(_) => None,
        };
        self.store_fetched(cache, fetched, checked, now)
    }

    /// The current position: the cached one if the caller found one, else
    /// the most recent stored one, however long ago it was written; a
    /// not-found error only when nothing is stored. The stored position is
    /// worth caching when it was written less than five minutes before
    /// `now`.
    pub fn get_current(&self, cached: Option<IssPosition>, now: i64) -> (r: ReadThrough<
        IssPosition,
    >)
        requires
            self.wf(),
        ensures
            match cached {
                Some(c) => r.value == Ok::<IssPosition, ApiError>(c) && r.fill is None,
                None => if self.repo()@.len() > 0 {
                    &&& r.value == Ok::<IssPosition, ApiError>(self.repo()@[0])
                    &&& r.fill is Some <==> is_fresh(self.repo()@[0].fetched_at, now)
                    &&& r.fill matches Some(fill) ==> fill.key@ == current_key()
                        && fill.ttl_seconds == CURRENT_TTL_SECONDS
                } else {
                    &&& r.value matches Err(ApiError::NotFound(m))
                    &&& m@ == not_found_text()
                    &&& r.fill is None
                },
            },
    {
        if let Some(c) = cached {
            return ReadThrough { value: Ok(c), fill: None };
        }
        current_after_miss(self.iss_repo.get_latest(), now)
    }

    /// A forced refresh: stores what the source reported as observed at
    /// `now`, drops every cached entry that could still serve an earlier
    /// position and invites the caller to cache the new one as the current
    /// one. On any failure neither the repository nor the cache is touched.
    pub fn fetch_and_save(
        &mut self,
        cache: &mut CacheRepo,
        fetched: Result<IssApiResponse, ApiError>,
        now: i64,
    ) -> (r: ReadThrough<IssPosition>)
        requires
            old(self).wf(),
            old(cache).wf(),
        ensures
            final(self).wf(),
            final(cache).wf(),
            match fetched {
                Err(e) => r.value == Err::<IssPosition, ApiError>(e),
                Ok(api) => if !has_key(old(self).repo()@, row_key(), now) && old(self).repo().fresh_id() == i32::MAX {
                    r.value is Err && is_ids_used_up(r.value->Err_0)
                } else {
                    &&& r.value == Ok::<IssPosition, ApiError>(spec_position(api, now, now))
                    &&& upserted(
                        old(self).repo()@,
                        old(self).repo().fresh_id(),
                        spec_position(api, now, now),
                        final(self).repo()@,
                    )
                    &&& final(self).repo().fresh_id() == spec_fresh_after(old(self).repo(), now)
                    &&& final(cache)@ == positions_dropped(old(cache)@)
                    &&& r.fill is Some
                    &&& r.fill->0.key@ == current_key()
                    &&& r.fill->0.ttl_seconds == CURRENT_TTL_SECONDS
                },
            },
            r.value is Err ==> r.fill is None && final(self).repo()@ == old(self).repo()@ && final(self).repo().fresh_id() == old(self).repo().fresh_id() && final(cache)@ == old(cache)@,
    {
        let position = match to_position(fetched, Some(now), now) {
            Ok(position) => position,
            Err(e) => {
                return ReadThrough { value: Err(e), fill: None };
            },
        };
        let stored = self.iss_repo.save(&position);
        let invs = invalidations_after(&stored, position_invalidations());
        cache.invalidate_all(&invs);
        proof {
            if stored is Err {
                assert(invs@.len() == 0);
            }
        }
        match stored {
            Ok(()) => ReadThrough { value: Ok(position), fill: Some(refresh_fill()) },
            Err(e) => ReadThrough { value: Err(e), fill: None },
        }
    }

    /// The stored positions in range, most recent first, at most `limit`:
    /// the `limit` most recent positions in range.
    pub fn get_history(&self, start: Option<i64>, end: Option<i64>, limit: i32) -> (r: Result<
        Vec<IssPosition>,
        ApiError,
    >)
        requires
            self.wf(),
        ensures
            limit < 0 <==> r is Err,
            r is Err ==> is_negative_limit(r->Err_0),
            r is Ok ==> r->Ok_0@ == spec_history(self.repo()@, start, end, limit as int),
            r is Ok ==> most_recent_in_range(
                self.repo()@,
                start,
                end,
                limit as int,
                r->Ok_0@,
            ),
    {
        self.iss_repo.get_history(start, end, limit)
    }
}

} // verus!
