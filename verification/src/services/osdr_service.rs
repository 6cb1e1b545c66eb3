//! The collector for the dataset catalogue and the reads served from it.

use crate::calendar::{day_pattern, parse_day, parsed_day_number, spec_midnight};
use crate::domain::error::{is_ids_used_up, is_negative_limit, ApiError};
use crate::domain::models::{OsdrApiDataset, OsdrApiResponse, OsdrDataset, OsdrDatasetView};
use crate::repo::cache_repo::{keys_under, spec_invalidate_all, CacheRepo, Invalidation};
use crate::keyed::{entry_for, exactly_one, has_key, lemma_exactly_one};
use crate::repo::osdr_repo::{
    batch_upserted, dataset_key, keys_after, kept_as, lemma_batch_entries, lemma_batch_last_wins,
    lemma_batch_of_stored, lemma_batch_step, lemma_last_with_key_at, lemma_new_rows_bound,
    lemma_new_rows_prefix, last_with_key, spec_new_rows, upserted, views, OsdrRepo,
};
use crate::services::{CacheFill, ReadThrough};
use crate::text::{i64_to_string, signed_decimal};
use vstd::prelude::*;

verus! {

/// Seconds a page of the listing stays cached.
pub const LIST_TTL_SECONDS: usize = 1800;

/// Seconds the refreshed listing stays cached.
pub const REFRESH_TTL_SECONDS: usize = 3600;

/// Rows in the refreshed listing.
pub const REFRESH_LIMIT: i32 = 100;

/// Every cached page of the listing has a key that starts with this.
pub open spec fn list_prefix() -> Seq<char> {
    "osdr:all"@
}

/// Key of the cached page of the listing with `limit` rows.
pub open spec fn list_key(limit: i32) -> Seq<char> {
    "osdr:all:"@ + signed_decimal(limit as int)
}

pub open spec fn refreshed_key() -> Seq<char> {
    "osdr:datasets"@
}

/// The release day the source wrote, as midnight UTC of that day; nothing
/// when the source wrote none or wrote something that names no day.
pub open spec fn spec_release(text: Option<String>) -> Option<i64> {
    match text {
        Some(t) => match parsed_day_number(t@, day_pattern()) {
            Some(d) => Some(spec_midnight(d)),
            None => None,
        },
        None => None,
    }
}

/// The record made of one reported dataset, written at `now`, with the
/// given release day. It has no surrogate id yet.
pub open spec fn spec_dataset_with(api: OsdrApiDataset, release_date: Option<i64>, now: i64)
    -> OsdrDatasetView {
    OsdrDatasetView {
        id: None,
        dataset_id: api.dataset_id@,
        title: api.title@,
        description: match api.description {
            Some(d) => Some(d@),
            None => None,
        },
        release_date,
        updated_at: now,
    }
}

/// The record made of one reported dataset, written at `now`.
pub open spec fn spec_dataset(api: OsdrApiDataset, now: i64) -> OsdrDatasetView {
    spec_dataset_with(api, spec_release(api.release_date), now)
}

/// The records made of a reported catalogue, in the order reported.
pub open spec fn spec_records(results: Seq<OsdrApiDataset>, now: i64) -> Seq<OsdrDatasetView> {
    results.map_values(|a: OsdrApiDataset| spec_dataset(a, now))
}

/// The cache after a synchronisation: no page of the listing is left, and
/// the refreshed listing is gone.
pub open spec fn spec_invalidated(cache: Map<Seq<char>, crate::repo::cache_repo::Cached>) -> Map<
    Seq<char>,
    crate::repo::cache_repo::Cached,
> {
    cache.remove_keys(keys_under(list_prefix())).remove(refreshed_key())
}

/// Makes the record of one reported dataset, given its release day.
pub fn to_dataset(api: &OsdrApiDataset, release_date: Option<i64>, now: i64) -> (d: OsdrDataset)
    ensures
        d@ == spec_dataset_with(*api, release_date, now),
{
    OsdrDataset {
        id: None,
        dataset_id: api.dataset_id.clone(),
        title: api.title.clone(),
        description: match &api.description {
            Some(d) => Some(d.clone()),
            None => None,
        },
        release_date,
        updated_at: now,
    }
}

/// Makes the record of one reported dataset, reading its release day from
/// the text the source wrote.
pub fn transform(api: &OsdrApiDataset, now: i64) -> (d: OsdrDataset)
    ensures
        d@ == spec_dataset(*api, now),
{
    let release_date = match &api.release_date {
        Some(text) => parse_day(text.as_str()),
        None => None,
    };
    to_dataset(api, release_date, now)
}

/// Makes the records of a reported catalogue, in the order reported.
pub fn transform_all(results: &Vec<OsdrApiDataset>, now: i64) -> (records: Vec<OsdrDataset>)
    ensures
        views(records@) == spec_records(results@, now),
{
    let mut records: Vec<OsdrDataset> = Vec::new();
    let mut i: usize = 0;
    while i < results.len()
        invariant
            i <= results@.len(),
            views(records@) == spec_records(results@, now).take(i as int),
        decreases results@.len() - i,
    {
        let ghost earlier = records@;
        let record = transform(&results[i], now);
        records.push(record);
        i = i + 1;
        assert(views(records@) =~= spec_records(results@, now).take(i as int)) by {
            assert(records@ == earlier.push(record));
            assert(views(records@) =~= views(earlier).push(record@));
            assert(spec_records(results@, now).take(i as int) =~= spec_records(
                results@,
                now,
            ).take(i - 1).push(spec_dataset(results@[i - 1], now)));
        }
    }
    assert(spec_records(results@, now).take(i as int) =~= spec_records(results@, now));
    records
}

/// What a synchronisation drops from the cache once it has stored the
/// catalogue: every page of the listing, then the refreshed listing.
pub fn sync_invalidations() -> (invs: Vec<Invalidation>)
    ensures
        invs@.len() == 2,
        invs@[0] matches Invalidation::Prefix(p) && p@ == list_prefix(),
        invs@[1] matches Invalidation::Key(k) && k@ == refreshed_key(),
{
    let mut invs: Vec<Invalidation> = Vec::new();
    invs.push(Invalidation::Prefix(String::from_str("osdr:all")));
    invs.push(Invalidation::Key(String::from_str("osdr:datasets")));
    invs
}

/// Key of the cached page of the listing with `limit` rows.
pub fn list_cache_key(limit: i32) -> (k: String)
    ensures
        k@ == list_key(limit),
{
    let mut k = String::from_str("osdr:all:");
    let n = i64_to_string(limit as i64);
    k.append(n.as_str());
    k
}

/// What a read of a page of the listing comes to after a cache miss: the
/// page the store returned, which is then worth caching under the key of
/// that page, or the failure of the store.
pub fn page_after_miss(limit: i32, page: Result<Vec<OsdrDataset>, ApiError>) -> (r: ReadThrough<
    Vec<OsdrDataset>,
>)
    ensures
        r.value == page,
        page is Err ==> r.fill is None,
        page is Ok ==> r.fill is Some && r.fill->0.key@ == list_key(limit)
            && r.fill->0.ttl_seconds == LIST_TTL_SECONDS,
{
    match page {
        Ok(rows) => ReadThrough {
            value: Ok(rows),
            fill: Some(CacheFill { key: list_cache_key(limit), ttl_seconds: LIST_TTL_SECONDS }),
        },
        Err(e) => ReadThrough { value: Err(e), fill: None },
    }
}

/// What a forced refresh returns once the catalogue is stored: the page the
/// store returned, which is worth caching as the refreshed listing, or the
/// failure of the store.
pub fn refreshed_from(page: Result<Vec<OsdrDataset>, ApiError>) -> (r: ReadThrough<
    Vec<OsdrDataset>,
>)
    ensures
        r.value == page,
        page is Err ==> r.fill is None,
        page is Ok ==> r.fill is Some && r.fill->0.key@ == refreshed_key()
            && r.fill->0.ttl_seconds == REFRESH_TTL_SECONDS,
{
    match page {
        Ok(rows) => ReadThrough {
            value: Ok(rows),
            fill: Some(
                CacheFill { key: String::from_str("osdr:datasets"), ttl_seconds: REFRESH_TTL_SECONDS },
            ),
        },
        Err(e) => ReadThrough { value: Err(e), fill: None },
    }
}

/// What storing `recs` one after the other, in order, comes to. It
/// succeeds exactly when the surrogate ids suffice for the rows the
/// records add, so certainly when they suffice for as many rows as there
/// are records; every record is then written and the count is their
/// number. It fails at the first record that needs a new row when the
/// surrogate ids are used up; the records before that one are written and
/// stay. Either way one surrogate id is given out for every row added.
pub open spec fn stored_in_order(
    before: OsdrRepo,
    recs: Seq<OsdrDatasetView>,
    after: OsdrRepo,
    r: Result<usize, ApiError>,
) -> bool {
    &&& r is Ok <==> before.fresh_id() + spec_new_rows(before@, recs) <= i32::MAX
    &&& before.fresh_id() + recs.len() <= i32::MAX ==> r is Ok
    &&& before.fresh_id() <= after.fresh_id() <= before.fresh_id() + recs.len()
    &&& after.fresh_id() - before.fresh_id() == after@.len() - before@.len()
    &&& match r {
        Ok(n) => n == recs.len() && batch_upserted(before@, recs, after@) && after.fresh_id()
            == before.fresh_id() + spec_new_rows(before@, recs),
        Err(e) => is_ids_used_up(e) && after.fresh_id() == i32::MAX && exists|k: int|
            0 <= k < recs.len() && #[trigger] batch_upserted(before@, recs.take(k), after@)
                && !has_key(after@, dataset_key(), recs[k].dataset_id),
    }
}

/// What a synchronisation does next.
#[derive(Debug)]
pub enum SyncStep {
    /// Hand the record at `index` to the store and report its answer.
    Save { index: usize },
    /// Drop the cached listings, then end the cycle with `result`.
    Finish { result: Result<usize, ApiError> },
}

/// The next step of a synchronisation of `total` records of which the
/// first `done` are stored, given the store's answer to the record handed
/// over last. A refusal ends the cycle at once with that failure; else the
/// next record is handed over, and when none is left the cycle ends with
/// the number of records.
pub fn sync_step(total: usize, done: usize, last: Result<(), ApiError>) -> (step: SyncStep)
    ensures
        step == match last {
            Err(e) => SyncStep::Finish { result: Err(e) },
            Ok(_) => if done < total {
                SyncStep::Save { index: done }
            } else {
                SyncStep::Finish { result: Ok(total) }
            },
        },
{
    match last {
        Err(e) => SyncStep::Finish { result: Err(e) },
        Ok(_) => {
            if done < total {
                SyncStep::Save { index: done }
            } else {
                SyncStep::Finish { result: Ok(total) }
            }
        },
    }
}

pub struct OsdrService {
    osdr_repo: OsdrRepo,
}

impl OsdrService {
    pub closed spec fn repo(&self) -> OsdrRepo {
        self.osdr_repo
    }

    pub open spec fn wf(&self) -> bool {
        self.repo().wf()
    }

    pub fn new(osdr_repo: OsdrRepo) -> (s: OsdrService)
        requires
            osdr_repo.wf(),
        ensures
            s.wf(),
            s.repo() == osdr_repo,
    {
        OsdrService { osdr_repo }
    }

    fn store_all(&mut self, results: &Vec<OsdrApiDataset>, now: i64) -> (r: Result<
        usize,
        ApiError,
    >)
        requires
            old(self).wf(),
        ensures
            final(self).wf(),
            stored_in_order(old(self).repo(), spec_records(results@, now), final(self).repo(), r),
    {
        let n = results.len();
        let ghost recs = spec_records(results@, now);
        let mut done: usize = 0;
        let mut last: Result<(), ApiError> = Ok(());
        proof {
            assert(recs.take(0) =~= Seq::<OsdrDatasetView>::empty());
            lemma_new_rows_bound(old(self).repo()@, recs);
        }
        loop
            invariant
                self.wf(),
                recs == spec_records(results@, now),
                n == results@.len(),
                done <= n,
                spec_new_rows(old(self).repo()@, recs) <= n,
                old(self).repo().fresh_id() <= self.repo().fresh_id() <= old(
                    self,
                ).repo().fresh_id() + done,
                self.repo().fresh_id() - old(self).repo().fresh_id() == self.repo()@.len() - old(
                    self,
                ).repo()@.len(),
                self.repo().fresh_id() == old(self).repo().fresh_id() + spec_new_rows(
                    old(self).repo()@,
                    recs.take(done as int),
                ),
                keys_after(old(self).repo()@, recs, done as int, self.repo()@),
                batch_upserted(old(self).repo()@, recs.take(done as int), self.repo()@),
                last matches Err(e) ==> {
                    &&& is_ids_used_up(e)
                    &&& done < n
                    &&& self.repo().fresh_id() == i32::MAX
                    &&& !has_key(self.repo()@, dataset_key(), recs[done as int].dataset_id)
                    &&& old(self).repo().fresh_id() + spec_new_rows(old(self).repo()@, recs)
                        > i32::MAX
                },
            decreases
                    if last is Err {
                        0
                    } else {
                        n - done + 1
                    },
        {
            match sync_step(n, done, last) {
                SyncStep::Save { index } => {
                    let ghost mid = self.repo()@;
                    let ghost id = self.repo().fresh_id();
                    let record = transform(&results[index], now);
                    last = self.osdr_repo.save(record);
                    proof {
                        let more = recs.take(index + 1);
                        assert(more.drop_last() =~= recs.take(index as int));
                        assert(more.last() == spec_dataset(results@[index as int], now));
                        assert(recs[index as int] == more.last());
                        lemma_new_rows_prefix(old(self).repo()@, recs, index + 1);
                        if last is Ok {
                            assert(upserted(mid, id, more.last(), self.repo()@));
                            lemma_batch_step(
                                old(self).repo()@,
                                recs,
                                index as int,
                                mid,
                                id,
                                self.repo()@,
                            );
                        } else {
                            assert(!has_key(
                                old(self).repo()@,
                                dataset_key(),
                                recs[index as int].dataset_id,
                            ));
                            assert(!has_key(
                                recs.take(index as int),
                                dataset_key(),
                                recs[index as int].dataset_id,
                            ));
                        }
                    }
                    if last.is_ok() {
                        done = done + 1;
                    }
                },
                SyncStep::Finish { result } => {
                    proof {
                        if result is Ok {
                            assert(recs.take(n as int) =~= recs);
                        }
                    }
                    return result;
                },
            }
        }
    }

    /// One collection cycle: upserts every reported dataset, in the order
    /// reported, then drops every cached listing, and returns how many
    /// datasets were written. A failed fetch touches nothing. A failure of
    /// the store ends the cycle where it occurs: what was written before
    /// stays, and the cached listings are dropped all the same, since
    /// they may no longer show what is stored.
    pub fn sync_datasets(
        &mut self,
        cache: &mut CacheRepo,
        fetched: Result<OsdrApiResponse, ApiError>,
        now: i64,
    ) -> (r: Result<usize, ApiError>)
        requires
            old(self).wf(),
            old(cache).wf(),
        ensures
            final(self).wf(),
            final(cache).wf(),
            match fetched {
                Err(e) => {
                    &&& r == Err::<usize, ApiError>(e)
                    &&& final(self).repo()@ == old(self).repo()@
                    &&& final(self).repo().fresh_id() == old(self).repo().fresh_id()
                    &&& final(cache)@ == old(cache)@
                },
                Ok(api) => {
                    &&& stored_in_order(
                        old(self).repo(),
                        spec_records(api.results@, now),
                        final(self).repo(),
                        r,
                    )
                    &&& final(cache)@ == spec_invalidated(old(cache)@)
                },
            },
    {
        let api = match fetched {
            Ok(api) => api,
            Err(e) => {
                return Err(e);
            },
        };
        let stored = self.store_all(&api.results, now);
        let invs = sync_invalidations();
        cache.invalidate_all(&invs);
        proof {
            reveal_with_fuel(spec_invalidate_all, 3);
            assert(invs@.drop_last().len() == 1);
            assert(invs@.drop_last().drop_last().len() == 0);
            assert(invs@.drop_last().last() == invs@[0]);
        }
        stored
    }

    /// A page of the listing: the cached one if the caller found one, else
    /// the first `limit` stored rows, which are then worth caching under
    /// the key of that page.
    pub fn get_all_datasets(&self, limit: i32, cached: Option<Vec<OsdrDataset>>) -> (r:
        ReadThrough<Vec<OsdrDataset>>)
        requires
            self.wf(),
        ensures
            match cached {
                Some(page) => r.value == Ok::<Vec<OsdrDataset>, ApiError>(page) && r.fill is None,
                None => if limit < 0 {
                    r.value is Err && is_negative_limit(r.value->Err_0) && r.fill is None
                } else {
                    &&& r.value is Ok
                    &&& views(r.value->Ok_0@) == if limit < self.repo()@.len() {
                        self.repo()@.take(limit as int)
                    } else {
                        self.repo()@
                    }
                    &&& r.fill is Some
                    &&& r.fill->0.key@ == list_key(limit)
                    &&& r.fill->0.ttl_seconds == LIST_TTL_SECONDS
                },
            },
    {
        if let Some(page) = cached {
            return ReadThrough { value: Ok(page), fill: None };
        }
        page_after_miss(limit, self.osdr_repo.get_all(limit))
    }

    /// A forced refresh: upserts every reported dataset, drops every cached
    /// listing, then returns the first hundred stored rows, which are worth
    /// caching as the refreshed listing. A failed fetch touches nothing. A
    /// failure of the store ends the refresh where it occurs: what was
    /// written before stays and the cached listings are dropped.
    pub fn fetch_and_cache(
        &mut self,
        cache: &mut CacheRepo,
        fetched: Result<OsdrApiResponse, ApiError>,
        now: i64,
    ) -> (r: ReadThrough<Vec<OsdrDataset>>)
        requires
            old(self).wf(),
            old(cache).wf(),
        ensures
            final(self).wf(),
            final(cache).wf(),
            match fetched {
                Err(e) => {
                    &&& r.value == Err::<Vec<OsdrDataset>, ApiError>(e)
                    &&& r.fill is None
                    &&& final(self).repo()@ == old(self).repo()@
                    &&& final(self).repo().fresh_id() == old(self).repo().fresh_id()
                    &&& final(cache)@ == old(cache)@
                },
                Ok(api) => {
                    &&& stored_in_order(
                        old(self).repo(),
                        spec_records(api.results@, now),
                        final(self).repo(),
                        match r.value {
                            Ok(_) => Ok(api.results@.len() as usize),
                            Err(e) => Err(e),
                        },
                    )
                    &&& final(cache)@ == spec_invalidated(old(cache)@)
                    &&& r.value is Ok ==> {
                        &&& views(r.value->Ok_0@) == if REFRESH_LIMIT < final(self).repo()@.len() {
                            final(self).repo()@.take(REFRESH_LIMIT as int)
                        } else {
                            final(self).repo()@
                        }
                        &&& r.fill is Some
                        &&& r.fill->0.key@ == refreshed_key()
                        &&& r.fill->0.ttl_seconds == REFRESH_TTL_SECONDS
                    }
                    &&& r.value is Err ==> r.fill is None
                },
            },
    {
        let api = match fetched {
            Ok(api) => api,
            Err(e) => {
                return ReadThrough { value: Err(e), fill: None };
            },
        };
        let stored = self.store_all(&api.results, now);
        let invs = sync_invalidations();
        cache.invalidate_all(&invs);
        proof {
            reveal_with_fuel(spec_invalidate_all, 3);
            assert(invs@.drop_last().len() == 1);
            assert(invs@.drop_last().drop_last().len() == 0);
            assert(invs@.drop_last().last() == invs@[0]);
        }
        match stored {
            Ok(_) => refreshed_from(self.osdr_repo.get_all(REFRESH_LIMIT)),
            Err(e) => ReadThrough { value: Err(e), fill: None },
        }
    }
}

/// A later synchronisation that reports a dataset again: whatever was
/// stored before it, afterwards exactly one row carries that accession; it
/// has the title, description and release day of the later report and was
/// written at the time of the later synchronisation, and it keeps the
/// surrogate id it had. When a response names an accession more than once,
/// its last report counts.
pub proof fn lemma_resync_overwrites(
    before: Seq<OsdrDatasetView>,
    reported: Seq<OsdrApiDataset>,
    now: i64,
    after: Seq<OsdrDatasetView>,
    i: int,
)
    requires
        batch_upserted(before, spec_records(reported, now), after),
        0 <= i < reported.len(),
        forall|j: int| i < j < reported.len() ==> reported[j].dataset_id@ != reported[i].dataset_id@,
    ensures
        exactly_one(after, dataset_key(), reported[i].dataset_id@),
        entry_for(after, dataset_key(), reported[i].dataset_id@) matches Some(row) && {
            &&& kept_as(row, None) == spec_dataset(reported[i], now)
            &&& row.updated_at == now
            &&& entry_for(before, dataset_key(), reported[i].dataset_id@) matches Some(old)
                ==> row.id == old.id
        },
{
    let recs = spec_records(reported, now);
    assert(recs[i] == spec_dataset(reported[i], now));
    assert forall|j: int| i < j < recs.len() implies recs[j].dataset_id != recs[i].dataset_id by {
        assert(recs[j] == spec_dataset(reported[j], now));
    }
    lemma_last_with_key_at(recs, i);
    lemma_batch_entries(before, recs, after, reported[i].dataset_id@);
    lemma_batch_last_wins(before, recs, after);
    lemma_exactly_one(after, dataset_key(), reported[i].dataset_id@);
}

/// A synchronisation that reports only datasets that are stored already
/// succeeds, however few surrogate ids are left: overwriting needs none.
/// It adds no row and gives out no surrogate id.
pub proof fn lemma_resync_succeeds(
    before: OsdrRepo,
    recs: Seq<OsdrDatasetView>,
    after: OsdrRepo,
    r: Result<usize, ApiError>,
)
    requires
        stored_in_order(before, recs, after, r),
        forall|i: int| 0 <= i < recs.len() ==> has_key(before@, dataset_key(), recs[i].dataset_id),
    ensures
        r is Ok,
        after@.len() == before@.len(),
        after.fresh_id() == before.fresh_id(),
{
    if r is Ok {
        lemma_batch_of_stored(before@, recs, after@);
    }
    if r is Err {
        let k = choose|k: int|
            0 <= k < recs.len() && #[trigger] batch_upserted(before@, recs.take(k), after@)
                && !has_key(after@, dataset_key(), recs[k].dataset_id);
        assert(has_key(before@, dataset_key(), recs[k].dataset_id));
        lemma_batch_entries(before@, recs.take(k), after@, recs[k].dataset_id);
        assert(entry_for(after@, dataset_key(), recs[k].dataset_id) is Some);
    }
}

/// A synchronisation leaves every dataset alone that the response does not
/// name: its row is as it was, and an accession without a row stays without
/// one.
pub proof fn lemma_sync_leaves_unreported(
    before: Seq<OsdrDatasetView>,
    reported: Seq<OsdrApiDataset>,
    now: i64,
    after: Seq<OsdrDatasetView>,
    k: Seq<char>,
)
    requires
        batch_upserted(before, spec_records(reported, now), after),
        forall|j: int| 0 <= j < reported.len() ==> reported[j].dataset_id@ != k,
    ensures
        entry_for(after, dataset_key(), k) == entry_for(before, dataset_key(), k),
{
    let recs = spec_records(reported, now);
    lemma_unnamed_key(recs, k);
    lemma_batch_entries(before, recs, after, k);
}

proof fn lemma_unnamed_key(recs: Seq<OsdrDatasetView>, k: Seq<char>)
    requires
        forall|j: int| 0 <= j < recs.len() ==> recs[j].dataset_id != k,
    ensures
        last_with_key(recs, k) is None,
    decreases recs.len(),
{
    if recs.len() > 0 {
        assert(recs.last() == recs[recs.len() - 1]);
        let earlier = recs.drop_last();
        assert forall|j: int| 0 <= j < earlier.len() implies earlier[j].dataset_id != k by {
            assert(earlier[j] == recs[j]);
        }
        lemma_unnamed_key(earlier, k);
    }
}

} // verus!
