//! Counters and gauges for what the pipeline does, kept in families of
//! `prometheus` that are held in a value and handed to whoever has
//! something to record. Recording never reaches for a process-wide value.
//! Only `Metrics::register`, when the caller asks for it, offers the
//! families to the process-wide registry for export.

use crate::domain::error::ApiError;
use crate::text::{i64_to_string, signed_decimal};
use prometheus::{IntCounterVec, IntGaugeVec, Opts};
use vstd::prelude::*;
use vstd::utf8::encode_utf8;

verus! {

/// A family of integer counters of `prometheus` with one label name. A
/// family is only ever made by `new_counters`, so it has exactly one label
/// name. What it holds is known only through `counter_values`.
#[verifier::external_body]
pub struct CounterFamily {
    inner: IntCounterVec,
}

/// A family of integer gauges of `prometheus` with one label name. A
/// family is only ever made by `new_gauges`, so it has exactly one label
/// name. What it holds is known only through `gauge_values`.
#[verifier::external_body]
pub struct GaugeFamily {
    inner: IntGaugeVec,
}

/// Where the hash of label values starts.
pub const SLOT_BASIS: u64 = 0xcbf2_9ce4_8422_2325;

/// What the hash of label values is multiplied by after every byte.
pub const SLOT_PRIME: u64 = 0x0100_0000_01b3;

/// The hash `prometheus` takes of the bytes of a label value, with the
/// hasher of the `fnv` crate: starting from the basis, every byte is mixed
/// in by exclusive or, and the result is multiplied by the prime, keeping
/// the low 64 bits.
pub open spec fn spec_slot_of(bytes: Seq<u8>) -> u64
    decreases bytes.len(),
{
    if bytes.len() == 0 {
        SLOT_BASIS
    } else {
        (((spec_slot_of(bytes.drop_last()) ^ (bytes.last() as u64)) * SLOT_PRIME)
            % 0x1_0000_0000_0000_0000) as u64
    }
}

/// The slot `prometheus` keeps a label value's metric under: the hash of
/// the value's bytes. Two label values with the same slot share one
/// metric.
pub open spec fn label_slot(label: Seq<char>) -> u64 {
    spec_slot_of(encode_utf8(label))
}

/// The slot a label value's metric is kept under.
pub fn slot_of(label: &str) -> (slot: u64)
    ensures
        slot == label_slot(label@),
{
    let bytes = label.as_bytes_vec();
    let mut slot: u64 = SLOT_BASIS;
    let mut i: usize = 0;
    assert(bytes@.take(0) =~= Seq::<u8>::empty());
    while i < bytes.len()
        invariant
            i <= bytes@.len(),
            slot == spec_slot_of(bytes@.take(i as int)),
        decreases bytes@.len() - i,
    {
        let mixed: u64 = slot ^ (bytes[i] as u64);
        assert(mixed * SLOT_PRIME <= u128::MAX) by (nonlinear_arith)
            requires
                mixed <= u64::MAX,
                SLOT_PRIME <= u64::MAX,
        ;
        let product: u128 = mixed as u128 * SLOT_PRIME as u128;
        proof {
            let done = bytes@.take(i + 1);
            assert(done.drop_last() =~= bytes@.take(i as int));
            assert(done.last() == bytes@[i as int]);
        }
        slot = (product % 0x1_0000_0000_0000_0000u128) as u64;
        i = i + 1;
    }
    assert(bytes@.take(i as int) =~= bytes@);
    slot
}

/// What the counters of a family stand at, by slot; zero for a slot that
/// has no counter yet.
pub uninterp spec fn counter_values(family: CounterFamily) -> Map<u64, u64>;

/// What the gauges of a family show, by slot; zero for a slot that has no
/// gauge yet.
pub uninterp spec fn gauge_values(family: GaugeFamily) -> Map<u64, i64>;

/// Every slot at zero.
pub open spec fn no_counts() -> Map<u64, u64> {
    Map::total(|slot: u64| 0u64)
}

/// Every slot at zero.
pub open spec fn no_gauges() -> Map<u64, i64> {
    Map::total(|slot: u64| 0i64)
}

/// A counter after `delta` more events: that much higher, wrapping around
/// at the top of the range.
pub open spec fn spec_counted(before: u64, delta: u64) -> u64 {
    if before + delta > u64::MAX {
        (before + delta - u64::MAX - 1) as u64
    } else {
        (before + delta) as u64
    }
}

/// The counters after `delta` more events under `label`.
pub open spec fn bumped(counts: Map<u64, u64>, label: Seq<char>, delta: u64) -> Map<u64, u64> {
    counts.insert(label_slot(label), spec_counted(counts[label_slot(label)], delta))
}

/// Calls `prometheus::core::GenericCounterVec::new` with options made by
/// `Opts::new` and the one label name. Claimed: a family that is handed
/// out has no counter yet. Nothing is claimed about which names are
/// accepted.
#[verifier::external_body]
fn new_counters(name: &str, help: &str, label_name: &str) -> (r: Option<CounterFamily>)
    ensures
        match r {
            Some(family) => counter_values(family) == no_counts(),
            None => true,
        },
{
    match IntCounterVec::new(Opts::new(name, help), &[label_name]) {
        Ok(inner) => Some(CounterFamily { inner }),
        Err(_) => None,
    }
}

/// Calls `prometheus::core::MetricVec::get_metric_with_label_values` on the
/// family with the one label value and `GenericCounter::inc_by` on the
/// counter it returns. Claimed: the family keeps
/// the counter under the hash of the label value's bytes that `fnv` takes;
/// that counter goes up by `delta`, wrapping around as an atomic addition
/// does, and every other slot stays as it was. The lookup fails only when
/// the number of label values is not the number of label names, which is
/// one.
#[verifier::external_body]
fn add_to_counter(family: &mut CounterFamily, label: &str, delta: u64)
    ensures
        counter_values(*final(family)) == bumped(counter_values(*old(family)), label@, delta),
{
    if let Ok(counter) = family.inner.get_metric_with_label_values(&[label]) {
        counter.inc_by(delta)
    }
}

/// Calls `prometheus::core::MetricVec::get_metric_with_label_values` on the
/// family with the one label value and `GenericCounter::get` on the
/// counter it returns. Claimed: the result is what the label's slot stands
/// at, zero if it had no counter yet.
#[verifier::external_body]
fn counter_at(family: &CounterFamily, label: &str) -> (n: u64)
    ensures
        n == counter_values(*family)[label_slot(label@)],
{
    match family.inner.get_metric_with_label_values(&[label]) {
        Ok(counter) => counter.get(),
        Err(_) => 0,
    }
}

/// Calls `prometheus::register` with a handle on the family. Nothing is
/// claimed: whether the process-wide registry accepts the family depends
/// on what was registered before.
#[verifier::external_body]
fn register_counters(family: &CounterFamily) -> (accepted: bool) {
    prometheus::register(Box::new(family.inner.clone())).is_ok()
}

/// Calls `prometheus::core::GenericGaugeVec::new` with options made by
/// `Opts::new` and the one label name. Claimed: a family that is handed
/// out has no gauge yet. Nothing is claimed about which names are
/// accepted.
#[verifier::external_body]
fn new_gauges(name: &str, help: &str, label_name: &str) -> (r: Option<GaugeFamily>)
    ensures
        match r {
            Some(family) => gauge_values(family) == no_gauges(),
            None => true,
        },
{
    match IntGaugeVec::new(Opts::new(name, help), &[label_name]) {
        Ok(inner) => Some(GaugeFamily { inner }),
        Err(_) => None,
    }
}

/// Calls `prometheus::core::MetricVec::get_metric_with_label_values` on the
/// family with the one label value and `GenericGauge::set` on the gauge it
/// returns. Claimed: the gauge in the label's slot shows `value` and every
/// other slot stays as it was.
#[verifier::external_body]
fn set_gauge(family: &mut GaugeFamily, label: &str, value: i64)
    ensures
        gauge_values(*final(family)) == gauge_values(*old(family)).insert(
            label_slot(label@),
            value,
        ),
{
    if let Ok(gauge) = family.inner.get_metric_with_label_values(&[label]) {
        gauge.set(value)
    }
}

/// Calls `prometheus::core::MetricVec::get_metric_with_label_values` on the
/// family with the one label value and `GenericGauge::get` on the gauge it
/// returns. Claimed: the result is what the label's slot shows, zero if it
/// had no gauge yet.
#[verifier::external_body]
fn gauge_at(family: &GaugeFamily, label: &str) -> (n: i64)
    ensures
        n == gauge_values(*family)[label_slot(label@)],
{
    match family.inner.get_metric_with_label_values(&[label]) {
        Ok(gauge) => gauge.get(),
        Err(_) => 0,
    }
}

/// Calls `prometheus::register` with a handle on the family. Nothing is
/// claimed: whether the process-wide registry accepts the family depends
/// on what was registered before.
#[verifier::external_body]
fn register_gauges(family: &GaugeFamily) -> (accepted: bool) {
    prometheus::register(Box::new(family.inner.clone())).is_ok()
}

impl CounterFamily {
    /// What the counter for `label` stands at.
    pub fn get(&self, label: &str) -> (n: u64)
        ensures
            n == counter_values(*self)[label_slot(label@)],
    {
        counter_at(self, label)
    }

    /// Counts `delta` more events under `label`.
    pub fn add(&mut self, label: &str, delta: u64)
        ensures
            counter_values(*final(self)) == bumped(counter_values(*old(self)), label@, delta),
    {
        add_to_counter(self, label, delta)
    }
}

impl GaugeFamily {
    /// What the gauge for `label` shows.
    pub fn get(&self, label: &str) -> (n: i64)
        ensures
            n == gauge_values(*self)[label_slot(label@)],
    {
        gauge_at(self, label)
    }
}

/// Counts one more event under `label`.
pub fn bump(family: &mut CounterFamily, label: &str)
    ensures
        counter_values(*final(family)) == bumped(counter_values(*old(family)), label@, 1),
{
    family.add(label, 1);
}

/// A size as a gauge shows it: itself, or the largest gauge value when it
/// is beyond that.
pub open spec fn gauge_of(n: usize) -> i64 {
    if n > i64::MAX {
        i64::MAX
    } else {
        n as i64
    }
}

fn to_gauge(n: usize) -> (g: i64)
    ensures
        g == gauge_of(n),
{
    if n as u64 > i64::MAX as u64 {
        i64::MAX
    } else {
        n as i64
    }
}

/// Everything the pipeline counts.
pub struct Metrics {
    /// Cache reads that were served, by cache key.
    pub cache_hits: CounterFamily,
    /// Cache reads that were not served, by cache key.
    pub cache_misses: CounterFamily,
    /// Lock attempts that were granted, by lock id.
    pub locks_acquired: CounterFamily,
    /// Lock attempts that were refused, by lock id.
    pub locks_failed: CounterFamily,
    /// Connections in use, by pool.
    pub db_connections_active: GaugeFamily,
    /// Connections idle, by pool.
    pub db_connections_idle: GaugeFamily,
}

pub open spec fn refused_text() -> Seq<char> {
    "metric family refused"@
}

impl Metrics {
    /// Nothing counted yet.
    pub open spec fn is_fresh(&self) -> bool {
        &&& counter_values(self.cache_hits) == no_counts()
        &&& counter_values(self.cache_misses) == no_counts()
        &&& counter_values(self.locks_acquired) == no_counts()
        &&& counter_values(self.locks_failed) == no_counts()
        &&& gauge_values(self.db_connections_active) == no_gauges()
        &&& gauge_values(self.db_connections_idle) == no_gauges()
    }

    /// Puts the six families together: the metrics if every family was
    /// handed out, an internal error if any was refused.
    pub fn assemble(
        cache_hits: Option<CounterFamily>,
        cache_misses: Option<CounterFamily>,
        locks_acquired: Option<CounterFamily>,
        locks_failed: Option<CounterFamily>,
        db_connections_active: Option<GaugeFamily>,
        db_connections_idle: Option<GaugeFamily>,
    ) -> (r: Result<Metrics, ApiError>)
        ensures
            r is Ok <==> cache_hits is Some && cache_misses is Some && locks_acquired is Some
                && locks_failed is Some && db_connections_active is Some
                && db_connections_idle is Some,
            r matches Ok(m) ==> {
                &&& m.cache_hits == cache_hits->0
                &&& m.cache_misses == cache_misses->0
                &&& m.locks_acquired == locks_acquired->0
                &&& m.locks_failed == locks_failed->0
                &&& m.db_connections_active == db_connections_active->0
                &&& m.db_connections_idle == db_connections_idle->0
            },
            r matches Err(e) ==> e matches ApiError::InternalError(m) && m@ == refused_text(),
    {
        match (
            cache_hits,
            cache_misses,
            locks_acquired,
            locks_failed,
            db_connections_active,
            db_connections_idle,
        ) {
            (Some(hits), Some(misses), Some(acquired), Some(failed), Some(active), Some(idle)) => Ok(
                Metrics {
                    cache_hits: hits,
                    cache_misses: misses,
                    locks_acquired: acquired,
                    locks_failed: failed,
                    db_connections_active: active,
                    db_connections_idle: idle,
                },
            ),
            _ => Err(ApiError::InternalError(String::from_str("metric family refused"))),
        }
    }

    /// Makes the six families under their names, with nothing counted yet.
    /// Fails with an internal error when `prometheus` refuses one of them.
    pub fn new() -> (r: Result<Metrics, ApiError>)
        ensures
            r matches Ok(m) ==> m.is_fresh(),
            r matches Err(e) ==> e matches ApiError::InternalError(m) && m@ == refused_text(),
    {
        Metrics::assemble(
            new_counters("cache_hits_total", "Total number of cache hits", "cache_key"),
            new_counters("cache_misses_total", "Total number of cache misses", "cache_key"),
            new_counters(
                "advisory_locks_acquired",
                "Total number of advisory locks acquired",
                "lock_id",
            ),
            new_counters(
                "advisory_locks_failed",
                "Total number of failed advisory lock attempts",
                "lock_id",
            ),
            new_gauges("db_connections_active", "Number of active database connections", "pool"),
            new_gauges("db_connections_idle", "Number of idle database connections", "pool"),
        )
    }

    /// Offers every family to the process-wide registry of `prometheus`
    /// and says whether all of them were accepted. Every family is
    /// offered, whatever became of the ones before it. What the registry
    /// answers depends on what was registered before, so nothing is
    /// promised about the result.
    pub fn register(&self) -> (accepted: bool) {
        let mut answers: Vec<bool> = Vec::new();
        answers.push(register_counters(&self.cache_hits));
        answers.push(register_counters(&self.cache_misses));
        answers.push(register_counters(&self.locks_acquired));
        answers.push(register_counters(&self.locks_failed));
        answers.push(register_gauges(&self.db_connections_active));
        answers.push(register_gauges(&self.db_connections_idle));
        all_accepted(&answers)
    }
}

/// Whether every one of the answers is an acceptance.
pub fn all_accepted(answers: &Vec<bool>) -> (all: bool)
    ensures
        all == forall|i: int| 0 <= i < answers@.len() ==> answers@[i],
{
    let mut i: usize = 0;
    while i < answers.len()
        invariant
            i <= answers@.len(),
            forall|j: int| 0 <= j < i ==> answers@[j],
        decreases answers@.len() - i,
    {
        if !answers[i] {
            return false;
        }
        i = i + 1;
    }
    true
}

/// Sets the two gauges of a connection pool.
pub fn update_db_pool_metrics(metrics: &mut Metrics, pool_name: &str, active: usize, idle: usize)
    ensures
        gauge_values(final(metrics).db_connections_active) == gauge_values(
            old(metrics).db_connections_active,
        ).insert(label_slot(pool_name@), gauge_of(active)),
        gauge_values(final(metrics).db_connections_idle) == gauge_values(
            old(metrics).db_connections_idle,
        ).insert(label_slot(pool_name@), gauge_of(idle)),
        final(metrics).cache_hits == old(metrics).cache_hits,
        final(metrics).cache_misses == old(metrics).cache_misses,
        final(metrics).locks_acquired == old(metrics).locks_acquired,
        final(metrics).locks_failed == old(metrics).locks_failed,
{
    set_gauge(&mut metrics.db_connections_active, pool_name, to_gauge(active));
    set_gauge(&mut metrics.db_connections_idle, pool_name, to_gauge(idle));
}

/// Counts a cache read that was served.
pub fn record_cache_hit(metrics: &mut Metrics, cache_key: &str)
    ensures
        counter_values(final(metrics).cache_hits) == bumped(
            counter_values(old(metrics).cache_hits),
            cache_key@,
            1,
        ),
        final(metrics).cache_misses == old(metrics).cache_misses,
        final(metrics).locks_acquired == old(metrics).locks_acquired,
        final(metrics).locks_failed == old(metrics).locks_failed,
        final(metrics).db_connections_active == old(metrics).db_connections_active,
        final(metrics).db_connections_idle == old(metrics).db_connections_idle,
{
    bump(&mut metrics.cache_hits, cache_key);
}

/// Counts a cache read that was not served.
pub fn record_cache_miss(metrics: &mut Metrics, cache_key: &str)
    ensures
        counter_values(final(metrics).cache_misses) == bumped(
            counter_values(old(metrics).cache_misses),
            cache_key@,
            1,
        ),
        final(metrics).cache_hits == old(metrics).cache_hits,
        final(metrics).locks_acquired == old(metrics).locks_acquired,
        final(metrics).locks_failed == old(metrics).locks_failed,
        final(metrics).db_connections_active == old(metrics).db_connections_active,
        final(metrics).db_connections_idle == old(metrics).db_connections_idle,
{
    bump(&mut metrics.cache_misses, cache_key);
}

/// Counts a lock attempt that was granted. The label is the lock id in
/// decimal.
pub fn record_advisory_lock_acquired(metrics: &mut Metrics, lock_id: i64)
    ensures
        counter_values(final(metrics).locks_acquired) == bumped(
            counter_values(old(metrics).locks_acquired),
            signed_decimal(lock_id as int),
            1,
        ),
        final(metrics).locks_failed == old(metrics).locks_failed,
        final(metrics).cache_hits == old(metrics).cache_hits,
        final(metrics).cache_misses == old(metrics).cache_misses,
        final(metrics).db_connections_active == old(metrics).db_connections_active,
        final(metrics).db_connections_idle == old(metrics).db_connections_idle,
{
    let label = i64_to_string(lock_id);
    bump(&mut metrics.locks_acquired, label.as_str());
}

/// Counts a lock attempt that was refused. The label is the lock id in
/// decimal.
pub fn record_advisory_lock_failed(metrics: &mut Metrics, lock_id: i64)
    ensures
        counter_values(final(metrics).locks_failed) == bumped(
            counter_values(old(metrics).locks_failed),
            signed_decimal(lock_id as int),
            1,
        ),
        final(metrics).locks_acquired == old(metrics).locks_acquired,
        final(metrics).cache_hits == old(metrics).cache_hits,
        final(metrics).cache_misses == old(metrics).cache_misses,
        final(metrics).db_connections_active == old(metrics).db_connections_active,
        final(metrics).db_connections_idle == old(metrics).db_connections_idle,
{
    let label = i64_to_string(lock_id);
    bump(&mut metrics.locks_failed, label.as_str());
}

} // verus!
