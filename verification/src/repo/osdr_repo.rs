//! The durable repository of catalogue datasets, keyed by accession and
//! listed most recently written first.

use crate::domain::error::{
    ids_used_up, is_ids_used_up, is_negative_limit, negative_limit, ApiError,
};
use crate::domain::models::{OsdrDataset, OsdrDatasetView};
use crate::keyed::{
    distinct_keys, entry_for, exactly_one, has_key, lemma_entry_absent, lemma_entry_at,
    lemma_exactly_one, lemma_insert_fresh, lemma_remove_at, position_of,
};
use vstd::prelude::*;

verus! {

pub struct OsdrRepo {
    rows: Vec<OsdrDataset>,
    next_id: i32,
}

pub open spec fn dataset_key() -> spec_fn(OsdrDatasetView) -> Seq<char> {
    |d: OsdrDatasetView| d.dataset_id
}

/// No row was written later than a row before it.
pub open spec fn recent_first(rows: Seq<OsdrDatasetView>) -> bool {
    forall|i: int, j: int| 0 <= i < j < rows.len() ==> rows[i].updated_at >= rows[j].updated_at
}

/// `rec` as storage keeps it under the surrogate id `id`.
pub open spec fn kept_as(rec: OsdrDatasetView, id: Option<i32>) -> OsdrDatasetView {
    OsdrDatasetView { id, ..rec }
}

/// `after` is `before` with `rec` upserted: the row for `rec`'s accession
/// now carries `rec`'s fields, under the id it had before or under
/// `fresh_id` if it is new; every other row is as it was; no accession
/// occurs twice and the listing is still most recently written first.
/// Rows written in the same second may stand in either order.
pub open spec fn upserted(
    before: Seq<OsdrDatasetView>,
    fresh_id: i32,
    rec: OsdrDatasetView,
    after: Seq<OsdrDatasetView>,
) -> bool {
    &&& distinct_keys(after, dataset_key())
    &&& recent_first(after)
    &&& forall|k: Seq<char>|
        k != rec.dataset_id ==> entry_for(after, dataset_key(), k) == entry_for(
            before,
            dataset_key(),
            k,
        )
    &&& match entry_for(before, dataset_key(), rec.dataset_id) {
        Some(old) => entry_for(after, dataset_key(), rec.dataset_id) == Some(kept_as(rec, old.id))
            && after.len() == before.len(),
        None => entry_for(after, dataset_key(), rec.dataset_id) == Some(
            kept_as(rec, Some(fresh_id)),
        ) && after.len() == before.len() + 1,
    }
}

pub open spec fn views(rows: Seq<OsdrDataset>) -> Seq<OsdrDatasetView> {
    rows.map_values(|r: OsdrDataset| r@)
}

impl OsdrRepo {
    /// The stored rows in listing order.
    pub closed spec fn view(&self) -> Seq<OsdrDatasetView> {
        views(self.rows@)
    }

    /// The surrogate id the next new row gets.
    pub closed spec fn fresh_id(&self) -> i32 {
        self.next_id
    }

    /// No accession occurs twice, the listing is most recently written
    /// first, and every row has a surrogate id below the next one to be
    /// given out.
    pub open spec fn wf(&self) -> bool {
        &&& distinct_keys(self@, dataset_key())
        &&& recent_first(self@)
        &&& self.fresh_id() >= 1
        &&& forall|i: int|
            0 <= i < self@.len() ==> (#[trigger] self@[i]).id is Some && self@[i].id->0
                < self.fresh_id()
    }

    /// An empty repository.
    pub fn new() -> (r: OsdrRepo)
        ensures
            r.wf(),
            r@ == Seq::<OsdrDatasetView>::empty(),
            r.fresh_id() == 1,
    {
        let r = OsdrRepo { rows: Vec::new(), next_id: 1 };
        assert(r@ =~= Seq::<OsdrDatasetView>::empty());
        r
    }

    /// Number of stored rows.
    pub fn count(&self) -> (n: i64)
        ensures
            n == self@.len() || (n == i64::MAX && self@.len() > i64::MAX),
    {
        let n = self.rows.len() as u64;
        if n > i64::MAX as u64 {
            i64::MAX
        } else {
            n as i64
        }
    }

    fn find(&self, dataset_id: &String) -> (r: Option<usize>)
        requires
            self.wf(),
        ensures
            match r {
                Some(i) => i < self@.len() && self@[i as int].dataset_id == dataset_id@
                    && entry_for(self@, dataset_key(), dataset_id@) == Some(self@[i as int]),
                None => !has_key(self@, dataset_key(), dataset_id@),
            },
    {
        let mut i: usize = 0;
        while i < self.rows.len()
            invariant
                self.wf(),
                i <= self.rows@.len(),
                self@.len() == self.rows@.len(),
                forall|j: int| 0 <= j < i ==> self@[j].dataset_id != dataset_id@,
            decreases self.rows@.len() - i,
        {
            assert(self@[i as int] == self.rows@[i as int]@);
            if self.rows[i].dataset_id == *dataset_id {
                proof {
                    lemma_entry_at(self@, dataset_key(), i as int);
                }
                return Some(i);
            }
            i = i + 1;
        }
        proof {
            lemma_entry_absent(self@, dataset_key(), dataset_id@);
        }
        None
    }

    /// The row stored under `dataset_id`, if there is one.
    pub fn get_by_id(&self, dataset_id: &str) -> (r: Option<OsdrDataset>)
        requires
            self.wf(),
        ensures
            match entry_for(self@, dataset_key(), dataset_id@) {
                Some(row) => r is Some && r->0@ == row,
                None => r is None,
            },
    {
        let wanted = String::from_str(dataset_id);
        match self.find(&wanted) {
            Some(i) => {
                assert(self@[i as int] == self.rows@[i as int]@);
                Some(self.rows[i].duplicate())
            },
            None => None,
        }
    }

    /// Inserts the dataset, or overwrites the row with the same accession.
    /// Fails only when a new row is needed and the surrogate ids are used
    /// up; the repository is then unchanged.
    pub fn save(&mut self, dataset: OsdrDataset) -> (r: Result<(), ApiError>)
        requires
            old(self).wf(),
        ensures
            final(self).wf(),
            r is Err <==> !has_key(old(self)@, dataset_key(), dataset@.dataset_id) && old(
                self,
            ).fresh_id() == i32::MAX,
            r is Ok ==> upserted(old(self)@, old(self).fresh_id(), dataset@, final(self)@),
            r is Ok ==> final(self).fresh_id() == old(self).fresh_id() + if has_key(
                old(self)@,
                dataset_key(),
                dataset@.dataset_id,
            ) {
                0int
            } else {
                1int
            },
            r is Err ==> final(self)@ == old(self)@ && final(self).fresh_id() == old(
                self,
            ).fresh_id() && is_ids_used_up(r->Err_0),
    {
        let found = self.find(&dataset.dataset_id);
        let id = match found {
            Some(i) => {
                assert(self@[i as int] == self.rows@[i as int]@);
                self.rows[i].id
            },
            None => {
                if self.next_id == i32::MAX {
                    return Err(ids_used_up());
                }
                Some(self.next_id)
            },
        };
        let ghost before = self@;
        if let Some(i) = found {
            proof {
                lemma_remove_at(self@, dataset_key(), i as int);
            }
            self.rows.remove(i);
            assert(self@ =~= before.remove(i as int));
        } else {
            self.next_id = self.next_id + 1;
        }
        let ghost rest = self@;
        proof {
            assert(recent_first(rest)) by {
                if let Some(i) = found {
                    assert forall|a: int, b: int| 0 <= a < b < rest.len() implies rest[a].updated_at
                        >= rest[b].updated_at by {
                        let a0 = if a < i { a } else { a + 1 };
                        let b0 = if b < i { b } else { b + 1 };
                        assert(rest[a] == before[a0]);
                        assert(rest[b] == before[b0]);
                    }
                }
            }
            assert(!has_key(rest, dataset_key(), dataset@.dataset_id));
            assert forall|a: int| 0 <= a < rest.len() implies (#[trigger] rest[a]).id is Some
                && rest[a].id->0 < self.next_id by {
                if let Some(i) = found {
                    let a0 = if a < i { a } else { a + 1 };
                    assert(rest[a] == before[a0]);
                }
            }
        }
        let row = OsdrDataset { id, ..dataset };
        let p = self.position_for(row.updated_at);
        proof {
            lemma_insert_fresh(rest, dataset_key(), p as int, row@);
        }
        self.rows.insert(p, row);
        proof {
            let after = self@;
            assert(after =~= rest.insert(p as int, row@));
            assert forall|a: int| 0 <= a < after.len() implies #[trigger] after[a] == if a < p {
                rest[a]
            } else if a == p {
                row@
            } else {
                rest[a - 1]
            } by {}
            assert forall|a: int, b: int| 0 <= a < b < after.len() implies after[a].updated_at
                >= after[b].updated_at by {
                if a != p && b != p {
                    let a0 = if a < p { a } else { a - 1 };
                    let b0 = if b < p { b } else { b - 1 };
                    assert(rest[a0].updated_at >= rest[b0].updated_at);
                }
            }
            assert(row@ == kept_as(dataset@, id));
        }
        Ok(())
    }

    /// The first position whose row was not written after `updated_at`.
    fn position_for(&self, updated_at: i64) -> (p: usize)
        requires
            recent_first(self@),
        ensures
            p <= self@.len(),
            forall|j: int| 0 <= j < p ==> self@[j].updated_at > updated_at,
            forall|j: int| p <= j < self@.len() ==> self@[j].updated_at <= updated_at,
    {
        let mut p: usize = 0;
        while p < self.rows.len() && self.rows[p].updated_at > updated_at
            invariant
                p <= self.rows@.len(),
                self@.len() == self.rows@.len(),
                forall|j: int| 0 <= j < p ==> self@[j].updated_at > updated_at,
            decreases self.rows@.len() - p,
        {
            assert(self@[p as int] == self.rows@[p as int]@);
            p = p + 1;
        }
        proof {
            if p < self.rows@.len() {
                assert(self@[p as int] == self.rows@[p as int]@);
                assert forall|j: int| p <= j < self@.len() implies self@[j].updated_at
                    <= updated_at by {
                    if j > p {
                        assert(self@[p as int].updated_at >= self@[j].updated_at);
                    }
                }
            }
        }
        p
    }

    /// The first `limit` rows of the listing, most recently written first.
    /// A negative limit is an error of the store.
    pub fn get_all(&self, limit: i32) -> (r: Result<Vec<OsdrDataset>, ApiError>)
        requires
            self.wf(),
        ensures
            limit < 0 <==> r is Err,
            r is Err ==> is_negative_limit(r->Err_0),
            r is Ok ==> views(r->Ok_0@) == if limit < self@.len() {
                self@.take(limit as int)
            } else {
                self@
            },
            r is Ok ==> recent_first(views(r->Ok_0@)) && distinct_keys(
                views(r->Ok_0@),
                dataset_key(),
            ),
    {
        if limit < 0 {
            return Err(negative_limit());
        }
        let mut page: Vec<OsdrDataset> = Vec::new();
        let mut i: usize = 0;
        while i < self.rows.len() && i < limit as usize
            invariant
                0 <= limit,
                i <= self.rows@.len(),
                i <= limit,
                self@.len() == self.rows@.len(),
                views(page@) == self@.take(i as int),
            decreases self.rows@.len() - i,
        {
            assert(self@[i as int] == self.rows@[i as int]@);
            let ghost earlier = page@;
            let copy = self.rows[i].duplicate();
            page.push(copy);
            i = i + 1;
            assert(views(page@) =~= self@.take(i as int)) by {
                assert(page@ == earlier.push(copy));
                assert(views(page@) =~= views(earlier).push(copy@));
                assert(self@.take(i as int) =~= self@.take(i - 1).push(self@[i - 1]));
            }
        }
        proof {
            if i == self@.len() {
                assert(self@.take(i as int) =~= self@);
            }
        }
        Ok(page)
    }
}

/// `after` is `before` with the records of a batch upserted one after the
/// other, in order.
pub open spec fn batch_upserted(
    before: Seq<OsdrDatasetView>,
    recs: Seq<OsdrDatasetView>,
    after: Seq<OsdrDatasetView>,
) -> bool
    decreases recs.len(),
{
    if recs.len() == 0 {
        after == before
    } else {
        exists|mid: Seq<OsdrDatasetView>, id: i32|
            batch_upserted(before, recs.drop_last(), mid) && #[trigger] upserted(
                mid,
                id,
                recs.last(),
                after,
            )
    }
}

/// How many rows a batch adds to `before`: one for every accession it names
/// that has no row in `before`, however often the batch names it.
pub open spec fn spec_new_rows(before: Seq<OsdrDatasetView>, recs: Seq<OsdrDatasetView>) -> nat
    decreases recs.len(),
{
    if recs.len() == 0 {
        0
    } else {
        spec_new_rows(before, recs.drop_last()) + if has_key(
            before,
            dataset_key(),
            recs.last().dataset_id,
        ) || has_key(recs.drop_last(), dataset_key(), recs.last().dataset_id) {
            0nat
        } else {
            1nat
        }
    }
}

/// A batch adds no more rows than it has records.
pub proof fn lemma_new_rows_bound(before: Seq<OsdrDatasetView>, recs: Seq<OsdrDatasetView>)
    ensures
        spec_new_rows(before, recs) <= recs.len(),
    decreases recs.len(),
{
    if recs.len() > 0 {
        lemma_new_rows_bound(before, recs.drop_last());
    }
}

/// The first records of a batch add no more rows than the whole batch.
pub proof fn lemma_new_rows_prefix(
    before: Seq<OsdrDatasetView>,
    recs: Seq<OsdrDatasetView>,
    i: int,
)
    requires
        0 <= i <= recs.len(),
    ensures
        spec_new_rows(before, recs.take(i)) <= spec_new_rows(before, recs),
    decreases recs.len(),
{
    if i == recs.len() {
        assert(recs.take(i) =~= recs);
    } else {
        assert(recs.drop_last().take(i) =~= recs.take(i));
        lemma_new_rows_prefix(before, recs.drop_last(), i);
    }
}

/// The accessions that have a row are those that had one before the batch
/// and those that the first `done` records of the batch name.
pub open spec fn keys_after(
    before: Seq<OsdrDatasetView>,
    recs: Seq<OsdrDatasetView>,
    done: int,
    now: Seq<OsdrDatasetView>,
) -> bool {
    forall|k: Seq<char>|
        has_key(now, dataset_key(), k) <==> has_key(before, dataset_key(), k) || has_key(
            recs.take(done),
            dataset_key(),
            k,
        )
}

/// One more record of a batch is upserted: the accessions with a row and
/// the number of rows added move on by that record.
pub proof fn lemma_batch_step(
    before: Seq<OsdrDatasetView>,
    recs: Seq<OsdrDatasetView>,
    i: int,
    mid: Seq<OsdrDatasetView>,
    id: i32,
    after: Seq<OsdrDatasetView>,
)
    requires
        0 <= i < recs.len(),
        keys_after(before, recs, i, mid),
        upserted(mid, id, recs[i], after),
    ensures
        keys_after(before, recs, i + 1, after),
        spec_new_rows(before, recs.take(i + 1)) == spec_new_rows(before, recs.take(i)) + if has_key(
            mid,
            dataset_key(),
            recs[i].dataset_id,
        ) {
            0nat
        } else {
            1nat
        },
{
    let done = recs.take(i);
    let more = recs.take(i + 1);
    let key = recs[i].dataset_id;
    assert(more.drop_last() =~= done);
    assert(more.last() == recs[i]);
    assert forall|k: Seq<char>|
        has_key(more, dataset_key(), k) <==> has_key(done, dataset_key(), k) || k == key by {
        if has_key(done, dataset_key(), k) {
            let j = position_of(done, dataset_key(), k);
            assert(more[j] == done[j]);
        }
        if k == key {
            assert(dataset_key()(more[i]) == k);
        }
        if has_key(more, dataset_key(), k) {
            let j = position_of(more, dataset_key(), k);
            if j < i {
                assert(done[j] == more[j]);
            }
        }
    }
    assert forall|k: Seq<char>|
        has_key(after, dataset_key(), k) <==> has_key(before, dataset_key(), k) || has_key(
            more,
            dataset_key(),
            k,
        ) by {
        if k != key {
            assert(entry_for(after, dataset_key(), k) == entry_for(mid, dataset_key(), k));
        }
    }
}

/// A batch as the relational store takes it in one statement: one column
/// per field, each with one entry per dataset, in batch order.
#[derive(Debug)]
pub struct BatchColumns {
    pub dataset_ids: Vec<String>,
    pub titles: Vec<String>,
    pub descriptions: Vec<Option<String>>,
    pub release_dates: Vec<Option<i64>>,
    pub updated_ats: Vec<i64>,
}

impl BatchColumns {
    /// The columns hold the fields of `recs`, row by row.
    pub open spec fn holds(&self, recs: Seq<OsdrDatasetView>) -> bool {
        &&& self.dataset_ids@.len() == recs.len()
        &&& self.titles@.len() == recs.len()
        &&& self.descriptions@.len() == recs.len()
        &&& self.release_dates@.len() == recs.len()
        &&& self.updated_ats@.len() == recs.len()
        &&& forall|i: int|
            0 <= i < recs.len() ==> {
                &&& self.dataset_ids@[i]@ == (#[trigger] recs[i]).dataset_id
                &&& self.titles@[i]@ == recs[i].title
                &&& match self.descriptions@[i] {
                    Some(d) => recs[i].description == Some(d@),
                    None => recs[i].description is None,
                }
                &&& self.release_dates@[i] == recs[i].release_date
                &&& self.updated_ats@[i] == recs[i].updated_at
            }
    }
}

/// The columns of the statement that upserts a batch; nothing for an empty
/// batch, which needs no statement. The surrogate ids are not among the
/// columns: the store gives them out.
pub fn batch_columns(datasets: &Vec<OsdrDataset>) -> (r: Option<BatchColumns>)
    ensures
        r is None <==> datasets@.len() == 0,
        r matches Some(cols) ==> cols.holds(views(datasets@)),
{
    let n = datasets.len();
    if n == 0 {
        return None;
    }
    let mut cols = BatchColumns {
        dataset_ids: Vec::new(),
        titles: Vec::new(),
        descriptions: Vec::new(),
        release_dates: Vec::new(),
        updated_ats: Vec::new(),
    };
    let mut i: usize = 0;
    while i < n
        invariant
            n == datasets@.len(),
            i <= n,
            cols.holds(views(datasets@).take(i as int)),
        decreases n - i,
    {
        let d = &datasets[i];
        cols.dataset_ids.push(d.dataset_id.clone());
        cols.titles.push(d.title.clone());
        cols.descriptions.push(
            match &d.description {
                Some(text) => Some(text.clone()),
                None => None,
            },
        );
        cols.release_dates.push(d.release_date);
        cols.updated_ats.push(d.updated_at);
        proof {
            let done = views(datasets@).take(i + 1);
            assert(done[i as int] == datasets@[i as int]@);
            assert forall|j: int| 0 <= j < i implies done[j] == views(datasets@).take(i as int)[j] by {}
        }
        i = i + 1;
    }
    assert(views(datasets@).take(n as int) =~= views(datasets@));
    Some(cols)
}

/// Seconds in a day.
pub const DAY_SECONDS: i64 = 86_400;

/// The second before which rows count as older than `days` days at `now`.
pub open spec fn spec_cutoff(now: i64, days: i64) -> int {
    now - DAY_SECONDS * days
}

impl OsdrRepo {
    /// An independent copy with the same rows and the same next surrogate
    /// id.
    fn duplicate(&self) -> (c: OsdrRepo)
        ensures
            c@ == self@,
            c.fresh_id() == self.fresh_id(),
    {
        let mut rows: Vec<OsdrDataset> = Vec::new();
        let mut i: usize = 0;
        while i < self.rows.len()
            invariant
                i <= self.rows@.len(),
                views(rows@) == views(self.rows@).take(i as int),
            decreases self.rows@.len() - i,
        {
            let ghost earlier = rows@;
            let copy = self.rows[i].duplicate();
            rows.push(copy);
            i = i + 1;
            assert(views(rows@) =~= views(self.rows@).take(i as int)) by {
                assert(rows@ == earlier.push(copy));
                assert(views(rows@) =~= views(earlier).push(copy@));
            }
        }
        assert(views(self.rows@).take(i as int) =~= views(self.rows@));
        OsdrRepo { rows, next_id: self.next_id }
    }

    /// Upserts every dataset of the batch, in order, as one unit, and
    /// returns how many were written. An empty batch does nothing. The
    /// batch fails exactly when it would add more rows than surrogate ids
    /// are left; then nothing is written.
    pub fn batch_upsert(&mut self, datasets: &Vec<OsdrDataset>) -> (r: Result<u64, ApiError>)
        requires
            old(self).wf(),
        ensures
            final(self).wf(),
            r is Err <==> old(self).fresh_id() + spec_new_rows(old(self)@, views(datasets@))
                > i32::MAX,
            old(self).fresh_id() + datasets@.len() <= i32::MAX ==> r is Ok,
            r is Ok ==> r->Ok_0 == datasets@.len() && batch_upserted(
                old(self)@,
                views(datasets@),
                final(self)@,
            ),
            r is Ok ==> final(self).fresh_id() == old(self).fresh_id() + spec_new_rows(
                old(self)@,
                views(datasets@),
            ),
            r is Ok ==> final(self).fresh_id() <= old(self).fresh_id() + datasets@.len(),
            final(self).fresh_id() - old(self).fresh_id() == final(self)@.len() - old(self)@.len(),
            r is Err ==> final(self)@ == old(self)@ && final(self).fresh_id() == old(
                self,
            ).fresh_id() && is_ids_used_up(r->Err_0),
    {
        let n = datasets.len();
        let mut trial = self.duplicate();
        let mut i: usize = 0;
        let ghost recs = views(datasets@);
        assert(recs.take(0) =~= Seq::<OsdrDatasetView>::empty());
        while i < n
            invariant
                trial.wf(),
                self.wf(),
                recs == views(datasets@),
                n == datasets@.len(),
                i <= n,
                *self == *old(self),
                trial.fresh_id() == self.fresh_id() + spec_new_rows(self@, recs.take(i as int)),
                trial.fresh_id() - self.fresh_id() == trial@.len() - self@.len(),
                keys_after(self@, recs, i as int, trial@),
                batch_upserted(self@, recs.take(i as int), trial@),
            decreases n - i,
        {
            let ghost mid = trial@;
            let ghost id = trial.fresh_id();
            let rec = datasets[i].duplicate();
            assert(rec@ == recs[i as int]);
            let saved = trial.save(rec);
            proof {
                lemma_new_rows_prefix(self@, recs, i + 1);
                lemma_new_rows_bound(self@, recs);
                if saved is Ok {
                    lemma_batch_step(self@, recs, i as int, mid, id, trial@);
                    let done = recs.take(i + 1);
                    assert(done.drop_last() =~= recs.take(i as int));
                    assert(done.last() == recs[i as int]);
                    assert(upserted(mid, id, done.last(), trial@));
                } else {
                    let more = recs.take(i + 1);
                    assert(more.drop_last() =~= recs.take(i as int));
                    assert(more.last() == recs[i as int]);
                    assert(!has_key(self@, dataset_key(), recs[i as int].dataset_id));
                    assert(!has_key(recs.take(i as int), dataset_key(), recs[i as int].dataset_id));
                }
            }
            match saved {
                Ok(()) => {},
                Err(e) => {
                    return Err(e);
                },
            }
            i = i + 1;
        }
        assert(recs.take(n as int) =~= recs);
        proof {
            lemma_new_rows_bound(self@, recs);
        }
        *self = trial;
        Ok(n as u64)
    }

    /// Drops every row last written more than `days` days before `now` and
    /// returns how many were dropped. The rows that stay keep their order.
    pub fn delete_older_than(&mut self, days: i64, now: i64) -> (dropped: u64)
        requires
            old(self).wf(),
        ensures
            final(self).wf(),
            final(self).fresh_id() == old(self).fresh_id(),
            final(self)@ == old(self)@.take(final(self)@.len() as int),
            final(self)@.len() <= old(self)@.len(),
            forall|j: int|
                0 <= j < final(self)@.len() ==> old(self)@[j].updated_at >= spec_cutoff(now, days),
            forall|j: int|
                final(self)@.len() <= j < old(self)@.len() ==> old(self)@[j].updated_at
                    < spec_cutoff(now, days),
            dropped == old(self)@.len() - final(self)@.len(),
    {
        let cutoff: i128 = now as i128 - DAY_SECONDS as i128 * days as i128;
        let mut p: usize = 0;
        while p < self.rows.len() && self.rows[p].updated_at as i128 >= cutoff
            invariant
                p <= self.rows@.len(),
                self@.len() == self.rows@.len(),
                cutoff == spec_cutoff(now, days),
                forall|j: int| 0 <= j < p ==> self@[j].updated_at >= cutoff,
            decreases self.rows@.len() - p,
        {
            assert(self@[p as int] == self.rows@[p as int]@);
            p = p + 1;
        }
        proof {
            if p < self.rows@.len() {
                assert(self@[p as int] == self.rows@[p as int]@);
                assert forall|j: int| p <= j < self@.len() implies self@[j].updated_at
                    < cutoff by {
                    if j > p {
                        assert(self@[p as int].updated_at >= self@[j].updated_at);
                    }
                }
            }
        }
        let dropped = (self.rows.len() - p) as u64;
        self.rows.truncate(p);
        proof {
            let before = old(self)@;
            let after = self@;
            assert(after =~= before.take(p as int));
            assert forall|a: int, b: int|
                0 <= a < after.len() && 0 <= b < after.len() && a != b implies dataset_key()(
                after[a],
            ) != dataset_key()(after[b]) by {
                assert(after[a] == before[a]);
                assert(after[b] == before[b]);
            }
            assert forall|a: int, b: int| 0 <= a < b < after.len() implies after[a].updated_at
                >= after[b].updated_at by {
                assert(after[a] == before[a]);
                assert(after[b] == before[b]);
            }
            assert forall|a: int| 0 <= a < after.len() implies (#[trigger] after[a]).id is Some
                && after[a].id->0 < self.next_id by {
                assert(after[a] == before[a]);
            }
        }
        dropped
    }
}

/// The last record of `recs` that carries the accession `k`, if any does.
pub open spec fn last_with_key(recs: Seq<OsdrDatasetView>, k: Seq<char>) -> Option<OsdrDatasetView>
    decreases recs.len(),
{
    if recs.len() == 0 {
        None
    } else if recs.last().dataset_id == k {
        Some(recs.last())
    } else {
        last_with_key(recs.drop_last(), k)
    }
}

/// The record at position `i` is the last of `recs` with its accession
/// when no later record carries the same one.
pub proof fn lemma_last_with_key_at(recs: Seq<OsdrDatasetView>, i: int)
    requires
        0 <= i < recs.len(),
        forall|j: int| i < j < recs.len() ==> recs[j].dataset_id != recs[i].dataset_id,
    ensures
        last_with_key(recs, recs[i].dataset_id) == Some(recs[i]),
    decreases recs.len(),
{
    if i < recs.len() - 1 {
        let earlier = recs.drop_last();
        assert(recs.last() == recs[recs.len() - 1]);
        assert(earlier[i] == recs[i]);
        assert forall|j: int| i < j < earlier.len() implies earlier[j].dataset_id
            != earlier[i].dataset_id by {
            assert(earlier[j] == recs[j]);
        }
        lemma_last_with_key_at(earlier, i);
    }
}

/// What a batch does to each accession. One that the batch does not name
/// keeps its row, or stays without one. One that it names has a row
/// afterwards that carries the fields of the last record naming it, under
/// the surrogate id the accession had before the batch if it had a row
/// then.
pub proof fn lemma_batch_entries(
    before: Seq<OsdrDatasetView>,
    recs: Seq<OsdrDatasetView>,
    after: Seq<OsdrDatasetView>,
    k: Seq<char>,
)
    requires
        batch_upserted(before, recs, after),
    ensures
        match last_with_key(recs, k) {
            None => entry_for(after, dataset_key(), k) == entry_for(before, dataset_key(), k),
            Some(rec) => {
                &&& entry_for(after, dataset_key(), k) matches Some(row)
                &&& kept_as(row, None) == kept_as(rec, None)
                &&& entry_for(before, dataset_key(), k) matches Some(old) ==> row.id == old.id
            },
        },
    decreases recs.len(),
{
    if recs.len() > 0 {
        let (mid, id) = choose|mid: Seq<OsdrDatasetView>, id: i32|
            batch_upserted(before, recs.drop_last(), mid) && #[trigger] upserted(
                mid,
                id,
                recs.last(),
                after,
            );
        lemma_batch_entries(before, recs.drop_last(), mid, k);
    }
}

/// A batch that names only accessions that have a row needs no new row.
pub proof fn lemma_no_new_rows(before: Seq<OsdrDatasetView>, recs: Seq<OsdrDatasetView>)
    requires
        forall|i: int| 0 <= i < recs.len() ==> has_key(before, dataset_key(), recs[i].dataset_id),
    ensures
        spec_new_rows(before, recs) == 0,
    decreases recs.len(),
{
    if recs.len() > 0 {
        assert(recs.last() == recs[recs.len() - 1]);
        assert forall|i: int| 0 <= i < recs.drop_last().len() implies has_key(
            before,
            dataset_key(),
            recs.drop_last()[i].dataset_id,
        ) by {
            assert(recs.drop_last()[i] == recs[i]);
        }
        lemma_no_new_rows(before, recs.drop_last());
    }
}

/// No error on repeat: once a batch has been upserted, upserting the same
/// batch again needs no new row, so it cannot fail for want of surrogate
/// ids.
pub proof fn lemma_batch_repeat_needs_no_row(
    before: Seq<OsdrDatasetView>,
    recs: Seq<OsdrDatasetView>,
    after: Seq<OsdrDatasetView>,
)
    requires
        batch_upserted(before, recs, after),
    ensures
        spec_new_rows(after, recs) == 0,
{
    assert forall|i: int| 0 <= i < recs.len() implies has_key(
        after,
        dataset_key(),
        recs[i].dataset_id,
    ) by {
        lemma_named_key(recs, i);
        lemma_batch_entries(before, recs, after, recs[i].dataset_id);
    }
    lemma_no_new_rows(after, recs);
}

/// An accession that a record of the batch carries has a last record that
/// carries it.
pub proof fn lemma_named_key(recs: Seq<OsdrDatasetView>, i: int)
    requires
        0 <= i < recs.len(),
    ensures
        last_with_key(recs, recs[i].dataset_id) is Some,
    decreases recs.len(),
{
    if recs.last().dataset_id != recs[i].dataset_id {
        assert(recs.drop_last()[i] == recs[i]);
        lemma_named_key(recs.drop_last(), i);
    }
}

/// A batch that names only accessions that have a row already adds no row.
pub proof fn lemma_batch_of_stored(
    before: Seq<OsdrDatasetView>,
    recs: Seq<OsdrDatasetView>,
    after: Seq<OsdrDatasetView>,
)
    requires
        batch_upserted(before, recs, after),
        forall|i: int| 0 <= i < recs.len() ==> has_key(before, dataset_key(), recs[i].dataset_id),
    ensures
        after.len() == before.len(),
    decreases recs.len(),
{
    if recs.len() > 0 {
        let (mid, id) = choose|mid: Seq<OsdrDatasetView>, id: i32|
            batch_upserted(before, recs.drop_last(), mid) && #[trigger] upserted(
                mid,
                id,
                recs.last(),
                after,
            );
        assert forall|i: int| 0 <= i < recs.drop_last().len() implies has_key(
            before,
            dataset_key(),
            recs.drop_last()[i].dataset_id,
        ) by {
            assert(recs.drop_last()[i] == recs[i]);
        }
        lemma_batch_of_stored(before, recs.drop_last(), mid);
        assert(recs.last() == recs[recs.len() - 1]);
        lemma_batch_entries(before, recs.drop_last(), mid, recs.last().dataset_id);
    }
}

/// After a batch, the last record of the batch is the row for its
/// accession, and no accession occurs twice.
pub proof fn lemma_batch_last_wins(
    before: Seq<OsdrDatasetView>,
    recs: Seq<OsdrDatasetView>,
    after: Seq<OsdrDatasetView>,
)
    requires
        recs.len() > 0,
        batch_upserted(before, recs, after),
    ensures
        distinct_keys(after, dataset_key()),
        exactly_one(after, dataset_key(), recs.last().dataset_id),
        entry_for(after, dataset_key(), recs.last().dataset_id) matches Some(row) && kept_as(
            row,
            None,
        ) == kept_as(recs.last(), None),
{
    let (mid, id) = choose|mid: Seq<OsdrDatasetView>, id: i32|
        batch_upserted(before, recs.drop_last(), mid) && #[trigger] upserted(
            mid,
            id,
            recs.last(),
            after,
        );
    lemma_exactly_one(after, dataset_key(), recs.last().dataset_id);
}

/// Idempotent upsert: two upserts under the same accession, one after the
/// other, leave exactly one row for it, carrying the fields of the second,
/// and the second adds no row.
pub proof fn lemma_upsert_idempotent(
    s0: Seq<OsdrDatasetView>,
    s1: Seq<OsdrDatasetView>,
    s2: Seq<OsdrDatasetView>,
    id1: i32,
    id2: i32,
    first: OsdrDatasetView,
    second: OsdrDatasetView,
)
    requires
        first.dataset_id == second.dataset_id,
        upserted(s0, id1, first, s1),
        upserted(s1, id2, second, s2),
    ensures
        exactly_one(s2, dataset_key(), second.dataset_id),
        entry_for(s2, dataset_key(), second.dataset_id) matches Some(row) && kept_as(row, None)
            == kept_as(second, None),
        s2.len() == s1.len(),
{
    lemma_exactly_one(s2, dataset_key(), second.dataset_id);
}

} // verus!
