//! The durable repository of station positions, keyed by the second of
//! observation and kept most recent first.

use crate::domain::error::{
    ids_used_up, is_ids_used_up, is_negative_limit, negative_limit, ApiError,
};
use crate::domain::models::IssPosition;
use crate::keyed::{
    distinct_keys, entry_for, exactly_one, has_key, lemma_entry_absent, lemma_entry_at,
    lemma_exactly_one, lemma_insert_fresh, lemma_replace_at, position_of,
};
use crate::text::{decimal, u64_to_string};
use vstd::prelude::*;

verus! {

pub struct IssRepo {
    rows: Vec<IssPosition>,
    next_id: i32,
}

pub open spec fn row_key() -> spec_fn(IssPosition) -> i64 {
    |r: IssPosition| r.timestamp
}

/// Every row is strictly more recent than the rows after it.
pub open spec fn newest_first(rows: Seq<IssPosition>) -> bool {
    forall|i: int, j: int| 0 <= i < j < rows.len() ==> rows[i].timestamp > rows[j].timestamp
}

/// Rows kept most recent first never share a timestamp.
pub proof fn lemma_newest_first_distinct(rows: Seq<IssPosition>)
    requires
        newest_first(rows),
    ensures
        distinct_keys(rows, row_key()),
{
    assert forall|i: int, j: int|
        0 <= i < rows.len() && 0 <= j < rows.len() && i != j implies row_key()(rows[i]) != row_key()(
        rows[j],
    ) by {
        if i < j {
            assert(rows[i].timestamp > rows[j].timestamp);
        } else {
            assert(rows[j].timestamp > rows[i].timestamp);
        }
    }
}

/// `rec` as storage keeps it under the surrogate id `id`.
pub open spec fn stored_as(rec: IssPosition, id: Option<i32>) -> IssPosition {
    IssPosition { id, ..rec }
}

/// `after` is `before` with `rec` upserted: the row for `rec`'s timestamp
/// now carries `rec`'s fields, under the id it had before or under
/// `fresh_id` if it is new; every other row is as it was; and the rows are
/// still most recent first.
pub open spec fn upserted(
    before: Seq<IssPosition>,
    fresh_id: i32,
    rec: IssPosition,
    after: Seq<IssPosition>,
) -> bool {
    &&& newest_first(after)
    &&& forall|k: i64|
        k != rec.timestamp ==> entry_for(after, row_key(), k) == entry_for(before, row_key(), k)
    &&& match entry_for(before, row_key(), rec.timestamp) {
        Some(old) => entry_for(after, row_key(), rec.timestamp) == Some(stored_as(rec, old.id))
            && after.len() == before.len(),
        None => entry_for(after, row_key(), rec.timestamp) == Some(
            stored_as(rec, Some(fresh_id)),
        ) && after.len() == before.len() + 1,
    }
}

/// The rows a filter on the observation time lets through.
pub open spec fn in_range(ts: i64, start: Option<i64>, end: Option<i64>) -> bool {
    &&& start matches Some(s) ==> ts >= s
    &&& end matches Some(e) ==> ts <= e
}

pub open spec fn range_filter(start: Option<i64>, end: Option<i64>) -> spec_fn(IssPosition) -> bool {
    |r: IssPosition| in_range(r.timestamp, start, end)
}

/// The page a history query returns: the rows in range, most recent
/// first, cut off after `limit` rows.
pub open spec fn spec_history(
    rows: Seq<IssPosition>,
    start: Option<i64>,
    end: Option<i64>,
    limit: int,
) -> Seq<IssPosition> {
    let matching = rows.filter(range_filter(start, end));
    if limit < matching.len() {
        matching.take(limit)
    } else {
        matching
    }
}

/// `page` is the `limit` most recent rows of `rows` in range: it is most
/// recent first, every row of it is a row of `rows` in range, none occurs
/// twice, it holds `limit` rows or else every row in range, and every row
/// in range that it leaves out is older than its last row.
pub open spec fn most_recent_in_range(
    rows: Seq<IssPosition>,
    start: Option<i64>,
    end: Option<i64>,
    limit: int,
    page: Seq<IssPosition>,
) -> bool {
    &&& newest_first(page)
    &&& page.len() <= limit
    &&& page.len() == if limit < rows.filter(range_filter(start, end)).len() {
        limit
    } else {
        rows.filter(range_filter(start, end)).len() as int
    }
    &&& forall|i: int|
        0 <= i < page.len() ==> rows.contains(#[trigger] page[i]) && in_range(
            page[i].timestamp,
            start,
            end,
        )
    &&& forall|j: int|
        0 <= j < rows.len() && in_range(rows[j].timestamp, start, end) && !page.contains(
            #[trigger] rows[j],
        ) ==> page.len() == limit && (limit > 0 ==> rows[j].timestamp < page.last().timestamp)
}

impl IssRepo {
    /// The stored rows, most recent first.
    pub closed spec fn view(&self) -> Seq<IssPosition> {
        self.rows@
    }

    /// The surrogate id the next new row gets.
    pub closed spec fn fresh_id(&self) -> i32 {
        self.next_id
    }

    /// The rows are most recent first, and every row has a surrogate id
    /// below the next one to be given out.
    pub open spec fn wf(&self) -> bool {
        &&& newest_first(self@)
        &&& self.fresh_id() >= 1
        &&& forall|i: int|
            0 <= i < self@.len() ==> (#[trigger] self@[i]).id is Some && self@[i].id->0
                < self.fresh_id()
    }

    /// An empty repository.
    pub fn new() -> (r: IssRepo)
        ensures
            r.wf(),
            r@ == Seq::<IssPosition>::empty(),
            r.fresh_id() == 1,
    {
        IssRepo { rows: Vec::new(), next_id: 1 }
    }

    /// Number of stored rows.
    pub fn count(&self) -> (n: usize)
        ensures
            n == self@.len(),
    {
        self.rows.len()
    }

    /// Inserts the position, or overwrites the row with the same
    /// timestamp. Fails only when a new row is needed and the surrogate ids
    /// are used up; the repository is then unchanged.
    pub fn save(&mut self, pos: &IssPosition) -> (r: Result<(), ApiError>)
        requires
            old(self).wf(),
        ensures
            final(self).wf(),
            r is Err <==> !has_key(old(self)@, row_key(), pos.timestamp) && old(self).fresh_id()
                == i32::MAX,
            r is Ok ==> upserted(old(self)@, old(self).fresh_id(), *pos, final(self)@),
            r is Ok ==> final(self).fresh_id() == old(self).fresh_id() + if has_key(
                old(self)@,
                row_key(),
                pos.timestamp,
            ) {
                0int
            } else {
                1int
            },
            r is Err ==> final(self)@ == old(self)@ && final(self).fresh_id() == old(
                self,
            ).fresh_id() && is_ids_used_up(r->Err_0),
    {
        proof {
            lemma_newest_first_distinct(self.rows@);
        }
        let ts = pos.timestamp;
        let mut p: usize = 0;
        while p < self.rows.len() && self.rows[p].timestamp > ts
            invariant
                p <= self.rows@.len(),
                forall|j: int| 0 <= j < p ==> self.rows@[j].timestamp > ts,
            decreases self.rows@.len() - p,
        {
            p = p + 1;
        }
        if p < self.rows.len() && self.rows[p].timestamp == ts {
            let row = IssPosition { id: self.rows[p].id, ..*pos };
            proof {
                lemma_entry_at(self.rows@, row_key(), p as int);
                lemma_replace_at(self.rows@, row_key(), p as int, row);
            }
            self.rows.set(p, row);
            proof {
                assert forall|i: int, j: int| 0 <= i < j < self.rows@.len() implies self.rows@[i].timestamp
                    > self.rows@[j].timestamp by {
                    assert(self.rows@[i].timestamp == old(self).rows@[i].timestamp);
                    assert(self.rows@[j].timestamp == old(self).rows@[j].timestamp);
                }
            }
            Ok(())
        } else {
            proof {
                assert forall|j: int| 0 <= j < self.rows@.len() implies row_key()(self.rows@[j])
                    != ts by {
                    if j >= p {
                        if j > p {
                            assert(self.rows@[p as int].timestamp > self.rows@[j].timestamp);
                        }
                    }
                }
                lemma_entry_absent(self.rows@, row_key(), ts);
            }
            if self.next_id == i32::MAX {
                return Err(ids_used_up());
            }
            let row = IssPosition { id: Some(self.next_id), ..*pos };
            proof {
                lemma_insert_fresh(self.rows@, row_key(), p as int, row);
            }
            self.rows.insert(p, row);
            self.next_id = self.next_id + 1;
            proof {
                let before = old(self).rows@;
                let after = self.rows@;
                assert forall|i: int| 0 <= i < after.len() implies #[trigger] after[i] == if i
                    < p {
                    before[i]
                } else if i == p {
                    row
                } else {
                    before[i - 1]
                } by {}
                assert forall|i: int, j: int| 0 <= i < j < after.len() implies after[i].timestamp
                    > after[j].timestamp by {
                    if j == p {
                    } else if i == p {
                        if j - 1 > p {
                            assert(before[p as int].timestamp > before[j - 1].timestamp);
                        }
                    } else {
                        let i0 = if i < p { i } else { i - 1 };
                        let j0 = if j < p { j } else { j - 1 };
                        assert(before[i0].timestamp > before[j0].timestamp);
                    }
                }
            }
            Ok(())
        }
    }

    /// The most recent row, if there is any.
    pub fn get_latest(&self) -> (r: Option<IssPosition>)
        requires
            self.wf(),
        ensures
            r == if self@.len() == 0 {
                None
            } else {
                Some(self@[0])
            },
            r matches Some(latest) ==> forall|i: int|
                0 <= i < self@.len() ==> latest.timestamp >= self@[i].timestamp,
    {
        if self.rows.len() == 0 {
            None
        } else {
            Some(self.rows[0])
        }
    }

    /// The rows observed between `start` and `end` (each optional and
    /// inclusive), most recent first, at most `limit` of them: the `limit`
    /// most recent rows in range. A negative limit is an error of the
    /// store.
    pub fn get_history(&self, start: Option<i64>, end: Option<i64>, limit: i32) -> (r: Result<
        Vec<IssPosition>,
        ApiError,
    >)
        requires
            self.wf(),
        ensures
            limit < 0 <==> r is Err,
            r is Err ==> is_negative_limit(r->Err_0),
            r is Ok ==> r->Ok_0@ == spec_history(self@, start, end, limit as int),
            r is Ok ==> most_recent_in_range(self@, start, end, limit as int, r->Ok_0@),
    {
        if limit < 0 {
            return Err(negative_limit());
        }
        proof {
            lemma_history_page(self@, start, end, limit as int);
        }
        let matching = self.select(start, end);
        let mut page: Vec<IssPosition> = Vec::new();
        let mut i: usize = 0;
        while i < matching.len() && i < limit as usize
            invariant
                0 <= limit,
                i <= matching@.len(),
                i <= limit,
                page@ == matching@.take(i as int),
            decreases matching@.len() - i,
        {
            page.push(matching[i]);
            i = i + 1;
            assert(page@ =~= matching@.take(i as int));
        }
        assert(page@ =~= spec_history(self@, start, end, limit as int)) by {
            if i == matching@.len() {
                assert(matching@.take(i as int) =~= matching@);
            }
        }
        Ok(page)
    }

    fn select(&self, start: Option<i64>, end: Option<i64>) -> (out: Vec<IssPosition>)
        ensures
            out@ == self@.filter(range_filter(start, end)),
    {
        let mut out: Vec<IssPosition> = Vec::new();
        let mut i: usize = 0;
        proof {
            reveal(Seq::filter);
            assert(self.rows@.take(0) =~= Seq::<IssPosition>::empty());
        }
        while i < self.rows.len()
            invariant
                i <= self.rows@.len(),
                out@ == self.rows@.take(i as int).filter(range_filter(start, end)),
            decreases self.rows@.len() - i,
        {
            let row = self.rows[i];
            let keep = (match start {
                Some(s) => row.timestamp >= s,
                None => true,
            }) && (match end {
                Some(e) => row.timestamp <= e,
                None => true,
            });
            proof {
                reveal(Seq::filter);
                let next = self.rows@.take(i + 1);
                assert(next.drop_last() =~= self.rows@.take(i as int));
                assert(next.last() == row);
                assert(keep == range_filter(start, end)(row));
            }
            if keep {
                out.push(row);
            }
            i = i + 1;
        }
        assert(self.rows@.take(i as int) =~= self.rows@);
        out
    }

    /// The rows observed between `start` and `end`, both inclusive, oldest
    /// first: every stored row in range, and no other.
    pub fn get_by_timerange(&self, start: i64, end: i64) -> (out: Vec<IssPosition>)
        requires
            self.wf(),
        ensures
            out@ == self@.filter(range_filter(Some(start), Some(end))).reverse(),
            forall|i: int, j: int| 0 <= i < j < out@.len() ==> out@[i].timestamp < out@[j].timestamp,
            forall|i: int|
                0 <= i < out@.len() ==> self@.contains(#[trigger] out@[i]) && start
                    <= out@[i].timestamp <= end,
            forall|j: int|
                0 <= j < self@.len() && start <= self@[j].timestamp <= end ==> out@.contains(
                    #[trigger] self@[j],
                ),
    {
        let matching = self.select(Some(start), Some(end));
        proof {
            let keep = range_filter(Some(start), Some(end));
            lemma_filter_keeps_order(self@, keep);
            assert forall|i: int| 0 <= i < matching@.len() implies in_range(
                (#[trigger] matching@[i]).timestamp,
                Some(start),
                Some(end),
            ) by {
                self@.lemma_filter_pred(keep, i);
            }
            assert forall|j: int|
                0 <= j < self@.len() && start <= self@[j].timestamp <= end implies matching@.contains(
                #[trigger] self@[j],
            ) by {
                assert(keep(self@[j]));
                self@.lemma_filter_contains(keep, j);
            }
        }
        let mut out: Vec<IssPosition> = Vec::new();
        let mut i: usize = matching.len();
        while i > 0
            invariant
                i <= matching@.len(),
                out@.len() == matching@.len() - i,
                forall|k: int| 0 <= k < out@.len() ==> out@[k] == matching@[matching@.len() - 1 - k],
            decreases i,
        {
            i = i - 1;
            out.push(matching[i]);
        }
        assert(out@ =~= matching@.reverse());
        proof {
            assert forall|j: int|
                0 <= j < self@.len() && start <= self@[j].timestamp <= end implies out@.contains(
                #[trigger] self@[j],
            ) by {
                let k = choose|k: int| 0 <= k < matching@.len() && matching@[k] == self@[j];
                assert(out@[matching@.len() - 1 - k] == matching@[k]);
            }
        }
        out
    }
}

/// Idempotent upsert: two upserts under the same timestamp, one after the
/// other, leave exactly one row for it, carrying the fields of the second,
/// and the second adds no row.
pub proof fn lemma_upsert_idempotent(
    s0: Seq<IssPosition>,
    s1: Seq<IssPosition>,
    s2: Seq<IssPosition>,
    id1: i32,
    id2: i32,
    first: IssPosition,
    second: IssPosition,
)
    requires
        first.timestamp == second.timestamp,
        upserted(s0, id1, first, s1),
        upserted(s1, id2, second, s2),
    ensures
        exactly_one(s2, row_key(), second.timestamp),
        entry_for(s2, row_key(), second.timestamp) matches Some(row) && stored_as(row, None)
            == stored_as(second, None),
        s2.len() == s1.len(),
{
    lemma_newest_first_distinct(s2);
    lemma_exactly_one(s2, row_key(), second.timestamp);
}

/// Two listings that are most recent first and hold the same row for every
/// timestamp are the same listing.
pub proof fn lemma_same_rows_same_listing(a: Seq<IssPosition>, b: Seq<IssPosition>)
    requires
        newest_first(a),
        newest_first(b),
        a.len() == b.len(),
        forall|k: i64| entry_for(a, row_key(), k) == entry_for(b, row_key(), k),
    ensures
        a == b,
{
    lemma_newest_first_distinct(a);
    lemma_newest_first_distinct(b);
    assert forall|i: int| 0 <= i < a.len() implies a[i] == b[i] by {
        lemma_agree_up_to(a, b, i);
    }
    assert(a =~= b);
}

proof fn lemma_agree_up_to(a: Seq<IssPosition>, b: Seq<IssPosition>, i: int)
    requires
        newest_first(a),
        newest_first(b),
        distinct_keys(a, row_key()),
        distinct_keys(b, row_key()),
        a.len() == b.len(),
        forall|k: i64| entry_for(a, row_key(), k) == entry_for(b, row_key(), k),
        0 <= i < a.len(),
    ensures
        a[i] == b[i],
    decreases i,
{
    assert forall|m: int| 0 <= m < i implies a[m] == b[m] by {
        lemma_agree_up_to(a, b, m);
    }
    lemma_entry_at(a, row_key(), i);
    lemma_entry_at(b, row_key(), i);
    // where the row at `i` of one listing stands in the other
    let q = position_of(b, row_key(), a[i].timestamp);
    let p = position_of(a, row_key(), b[i].timestamp);
    assert(has_key(b, row_key(), a[i].timestamp));
    assert(has_key(a, row_key(), b[i].timestamp));
    lemma_entry_at(b, row_key(), q);
    lemma_entry_at(a, row_key(), p);
    assert(b[q] == a[i]);
    assert(a[p] == b[i]);
    if q < i {
        assert(a[q] == b[q]);
        assert(a[q].timestamp > a[i].timestamp);
    }
    if p < i {
        assert(a[p] == b[p]);
        assert(b[p].timestamp > b[i].timestamp);
    }
    if q > i {
        assert(b[i].timestamp > b[q].timestamp);
        if p > i {
            assert(a[i].timestamp > a[p].timestamp);
        }
    }
}

/// Repeating an upsert with the same record changes nothing at all: the
/// listing after the second is the listing after the first.
pub proof fn lemma_upsert_repeat_is_noop(
    s0: Seq<IssPosition>,
    s1: Seq<IssPosition>,
    s2: Seq<IssPosition>,
    id1: i32,
    id2: i32,
    rec: IssPosition,
)
    requires
        upserted(s0, id1, rec, s1),
        upserted(s1, id2, rec, s2),
    ensures
        s2 == s1,
{
    lemma_same_rows_same_listing(s2, s1);
}

/// Filtering keeps the order: the rows in range of a listing that is most
/// recent first are most recent first themselves.
pub proof fn lemma_filter_keeps_order(rows: Seq<IssPosition>, keep: spec_fn(IssPosition) -> bool)
    requires
        newest_first(rows),
    ensures
        newest_first(rows.filter(keep)),
        forall|i: int| 0 <= i < rows.filter(keep).len() ==> rows.contains(rows.filter(keep)[i]),
    decreases rows.len(),
{
    reveal(Seq::filter);
    if rows.len() > 0 {
        let earlier = rows.drop_last();
        assert forall|i: int, j: int| 0 <= i < j < earlier.len() implies earlier[i].timestamp
            > earlier[j].timestamp by {
            assert(earlier[i] == rows[i]);
            assert(earlier[j] == rows[j]);
        }
        lemma_filter_keeps_order(earlier, keep);
        let kept = earlier.filter(keep);
        assert forall|i: int| 0 <= i < kept.len() implies rows.contains(kept[i])
            && kept[i].timestamp > rows.last().timestamp by {
            assert(earlier.contains(kept[i]));
            let at = choose|at: int| 0 <= at < earlier.len() && earlier[at] == kept[i];
            assert(rows[at] == kept[i]);
        }
        if keep(rows.last()) {
            let all = kept.push(rows.last());
            assert(rows[rows.len() - 1] == rows.last());
            assert forall|i: int| 0 <= i < all.len() implies rows.contains(all[i]) by {
                if i < kept.len() {
                    assert(all[i] == kept[i]);
                }
            }
        }
    }
}

/// A page of history is the `limit` most recent rows in range.
pub proof fn lemma_history_page(
    rows: Seq<IssPosition>,
    start: Option<i64>,
    end: Option<i64>,
    limit: int,
)
    requires
        newest_first(rows),
        limit >= 0,
    ensures
        most_recent_in_range(rows, start, end, limit, spec_history(rows, start, end, limit)),
{
    let keep = range_filter(start, end);
    let matching = rows.filter(keep);
    let page = spec_history(rows, start, end, limit);
    lemma_filter_keeps_order(rows, keep);
    assert forall|i: int| 0 <= i < page.len() implies rows.contains(#[trigger] page[i])
        && in_range(page[i].timestamp, start, end) by {
        assert(page[i] == matching[i]);
        rows.lemma_filter_pred(keep, i);
    }
    assert forall|i: int, j: int| 0 <= i < j < page.len() implies page[i].timestamp
        > page[j].timestamp by {
        assert(page[i] == matching[i]);
        assert(page[j] == matching[j]);
    }
    assert forall|j: int|
        0 <= j < rows.len() && in_range(rows[j].timestamp, start, end) && !page.contains(
            #[trigger] rows[j],
        ) implies page.len() == limit && (limit > 0 ==> rows[j].timestamp
        < page.last().timestamp) by {
        assert(keep(rows[j]));
        rows.lemma_filter_contains(keep, j);
        let k = choose|k: int| 0 <= k < matching.len() && matching[k] == rows[j];
        if k < page.len() {
            assert(page[k] == matching[k]);
        }
        if limit > 0 {
            assert(page.last() == matching[limit - 1]);
        }
    }
}

/// A value bound to a placeholder of a history statement.
#[derive(Debug, Clone, Copy, PartialEq, Eq, Structural)]
pub enum HistoryBind {
    Start(i64),
    End(i64),
    Limit(i64),
}

/// A history query as the relational store takes it: the statement text
/// and the values for its placeholders, in placeholder order.
#[derive(Debug)]
pub struct HistoryStatement {
    pub sql: String,
    pub binds: Vec<HistoryBind>,
}

/// The placeholder with the given number.
pub open spec fn placeholder(n: nat) -> Seq<char> {
    "$"@ + decimal(n)
}

/// Text of the history statement for the filters that are present. The
/// placeholders are numbered in the order start, end, limit, skipping
/// filters that are absent.
pub open spec fn spec_history_sql(has_start: bool, has_end: bool) -> Seq<char> {
    let start_clause = if has_start {
        " AND timestamp >= "@ + placeholder(1)
    } else {
        Seq::<char>::empty()
    };
    let end_clause = if has_end {
        " AND timestamp <= "@ + placeholder(
            if has_start {
                2
            } else {
                1
            },
        )
    } else {
        Seq::<char>::empty()
    };
    let filters: nat = (if has_start {
        1nat
    } else {
        0nat
    }) + (if has_end {
        1nat
    } else {
        0nat
    });
    "SELECT id, latitude, longitude, altitude, velocity, timestamp, fetched_at FROM iss_fetch_log WHERE 1=1"@
        + start_clause + end_clause + " ORDER BY timestamp DESC LIMIT "@ + placeholder(filters + 1)
}

/// The values a history statement binds, in placeholder order.
pub open spec fn spec_history_binds(start: Option<i64>, end: Option<i64>, limit: i32) -> Seq<
    HistoryBind,
> {
    (match start {
        Some(s) => seq![HistoryBind::Start(s)],
        None => Seq::<HistoryBind>::empty(),
    }) + (match end {
        Some(e) => seq![HistoryBind::End(e)],
        None => Seq::<HistoryBind>::empty(),
    }) + seq![HistoryBind::Limit(limit as i64)]
}

fn push_placeholder(sql: &mut String, n: u64)
    ensures
        final(sql)@ == old(sql)@ + placeholder(n as nat),
{
    sql.append("$");
    let digits = u64_to_string(n);
    sql.append(digits.as_str());
    assert(sql@ =~= old(sql)@ + placeholder(n as nat));
}

/// Builds the statement for a history query.
pub fn history_statement(start: Option<i64>, end: Option<i64>, limit: i32) -> (st:
    HistoryStatement)
    ensures
        st.sql@ == spec_history_sql(start is Some, end is Some),
        st.binds@ == spec_history_binds(start, end, limit),
{
    let mut sql = String::from_str(
        "SELECT id, latitude, longitude, altitude, velocity, timestamp, fetched_at FROM iss_fetch_log WHERE 1=1",
    );
    let mut binds: Vec<HistoryBind> = Vec::new();
    let mut next: u64 = 1;
    if let Some(s) = start {
        sql.append(" AND timestamp >= ");
        push_placeholder(&mut sql, next);
        binds.push(HistoryBind::Start(s));
        next = next + 1;
    }
    if let Some(e) = end {
        sql.append(" AND timestamp <= ");
        push_placeholder(&mut sql, next);
        binds.push(HistoryBind::End(e));
        next = next + 1;
    }
    sql.append(" ORDER BY timestamp DESC LIMIT ");
    push_placeholder(&mut sql, next);
    binds.push(HistoryBind::Limit(limit as i64));
    assert(sql@ =~= spec_history_sql(start is Some, end is Some));
    assert(binds@ =~= spec_history_binds(start, end, limit));
    HistoryStatement { sql, binds }
}

} // verus!
