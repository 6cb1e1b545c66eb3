//! The cache-aside store: serialized values under string keys, each with an
//! expiry. It is a disposable projection of the durable repositories and
//! never a source of truth.
//!
//! Time is a parameter: every operation that depends on the clock takes the
//! current time in seconds, so the store itself never reads one.

use crate::keyed::{
    distinct_keys, keyed_map, lemma_entry_absent, lemma_entry_at, lemma_map_drop,
    lemma_map_put, lemma_push_fresh, lemma_remove_at, lemma_replace_at, position_of,
};
use crate::text::{is_prefix, starts_with};
use vstd::prelude::*;

verus! {

/// One cached value as the store keeps it.
#[derive(Debug)]
pub struct CacheEntry {
    pub key: String,
    pub value: String,
    /// First second at which the entry is no longer served.
    pub expires_at: i64,
}

/// A cached value and the first second at which it is no longer served.
pub struct Cached {
    pub value: Seq<char>,
    pub expires_at: i64,
}

/// Why the store turned a write down.
#[derive(Debug, Clone, Copy, PartialEq, Eq, Structural)]
pub enum CacheFault {
    /// An entry cannot be stored with a lifetime of zero seconds.
    InvalidExpiry,
}

pub struct CacheRepo {
    entries: Vec<CacheEntry>,
}

pub open spec fn entry_key() -> spec_fn(CacheEntry) -> Seq<char> {
    |e: CacheEntry| e.key@
}

pub open spec fn entry_value() -> spec_fn(CacheEntry) -> Cached {
    |e: CacheEntry| Cached { value: e.value@, expires_at: e.expires_at }
}

/// The second at which an entry written at `now` with lifetime `ttl`
/// expires; it stops at the largest representable second.
pub open spec fn spec_expiry(now: i64, ttl_seconds: usize) -> i64 {
    if now + ttl_seconds > i64::MAX {
        i64::MAX
    } else {
        (now + ttl_seconds) as i64
    }
}

/// What a read of `key` at time `now` serves: the value, if there is an
/// entry and it has not expired.
pub open spec fn spec_get(m: Map<Seq<char>, Cached>, key: Seq<char>, now: i64) -> Option<
    Seq<char>,
> {
    if m.dom().contains(key) && now < m[key].expires_at {
        Some(m[key].value)
    } else {
        None
    }
}

/// The store after writing `value` under `key` at time `now`.
pub open spec fn spec_set(
    m: Map<Seq<char>, Cached>,
    key: Seq<char>,
    value: Seq<char>,
    ttl_seconds: usize,
    now: i64,
) -> Map<Seq<char>, Cached> {
    if ttl_seconds == 0 {
        m
    } else {
        m.insert(key, Cached { value, expires_at: spec_expiry(now, ttl_seconds) })
    }
}

/// The store after giving the entry under `key`, if there is an unexpired
/// one, a new lifetime counted from `now`.
pub open spec fn spec_expire(
    m: Map<Seq<char>, Cached>,
    key: Seq<char>,
    ttl_seconds: usize,
    now: i64,
) -> Map<Seq<char>, Cached> {
    if spec_get(m, key, now) is Some {
        m.insert(key, Cached { value: m[key].value, expires_at: spec_expiry(now, ttl_seconds) })
    } else {
        m
    }
}

fn expiry(now: i64, ttl_seconds: usize) -> (at: i64)
    ensures
        at == spec_expiry(now, ttl_seconds),
{
    let at: i128 = now as i128 + ttl_seconds as i128;
    if at > i64::MAX as i128 {
        i64::MAX
    } else {
        at as i64
    }
}

impl CacheRepo {
    /// No key is stored twice.
    pub closed spec fn wf(&self) -> bool {
        distinct_keys(self.entries@, entry_key())
    }

    /// The stored entries by key, expired ones included.
    pub closed spec fn view(&self) -> Map<Seq<char>, Cached> {
        keyed_map(self.entries@, entry_key(), entry_value())
    }

    /// An empty cache.
    pub fn new() -> (c: CacheRepo)
        ensures
            c.wf(),
            c@ == Map::<Seq<char>, Cached>::empty(),
    {
        let c = CacheRepo { entries: Vec::new() };
        assert(c@ =~= Map::<Seq<char>, Cached>::empty());
        c
    }

    fn find(&self, key: &str) -> (r: Option<usize>)
        requires
            self.wf(),
        ensures
            match r {
                Some(i) => i < self.entries@.len() && self.entries@[i as int].key@ == key@
                    && self@.dom().contains(key@) && self@[key@] == entry_value()(
                    self.entries@[i as int],
                ),
                None => !self@.dom().contains(key@) && forall|j: int|
                    0 <= j < self.entries@.len() ==> self.entries@[j].key@ != key@,
            },
    {
        let wanted = String::from_str(key);
        let mut i: usize = 0;
        while i < self.entries.len()
            invariant
                self.wf(),
                wanted@ == key@,
                i <= self.entries@.len(),
                forall|j: int| 0 <= j < i ==> self.entries@[j].key@ != key@,
            decreases self.entries@.len() - i,
        {
            if self.entries[i].key == wanted {
                proof {
                    lemma_entry_at(self.entries@, entry_key(), i as int);
                }
                return Some(i);
            }
            i = i + 1;
        }
        proof {
            lemma_entry_absent(self.entries@, entry_key(), key@);
        }
        None
    }

    /// The value cached under `key`, if there is one and it has not
    /// expired at `now`. A miss is not an error.
    pub fn get(&self, key: &str, now: i64) -> (r: Option<String>)
        requires
            self.wf(),
        ensures
            match spec_get(self@, key@, now) {
                Some(v) => r is Some && r->0@ == v,
                None => r is None,
            },
    {
        match self.find(key) {
            Some(i) => {
                if now < self.entries[i].expires_at {
                    Some(self.entries[i].value.clone())
                } else {
                    None
                }
            },
            None => None,
        }
    }

    /// Whether a read of `key` at `now` would be served.
    pub fn is_cached(&self, key: &str, now: i64) -> (b: bool)
        requires
            self.wf(),
        ensures
            b == spec_get(self@, key@, now) is Some,
    {
        match self.find(key) {
            Some(i) => now < self.entries[i].expires_at,
            None => false,
        }
    }

    fn put(&mut self, key: &str, value: String, expires_at: i64)
        requires
            old(self).wf(),
        ensures
            final(self).wf(),
            final(self)@ == old(self)@.insert(key@, Cached { value: value@, expires_at }),
    {
        let entry = CacheEntry { key: String::from_str(key), value, expires_at };
        match self.find(key) {
            Some(i) => {
                proof {
                    lemma_replace_at(self.entries@, entry_key(), i as int, entry);
                }
                self.entries.set(i, entry);
            },
            None => {
                proof {
                    lemma_entry_absent(self.entries@, entry_key(), key@);
                    lemma_push_fresh(self.entries@, entry_key(), entry);
                }
                self.entries.push(entry);
            },
        }
        proof {
            lemma_map_put(old(self).entries@, self.entries@, entry_key(), entry_value(), entry);
        }
    }

    /// Stores `value` under `key` for `ttl_seconds` from `now`, replacing
    /// whatever was there. A lifetime of zero is turned down and leaves the
    /// store as it was.
    pub fn set(&mut self, key: &str, value: &str, ttl_seconds: usize, now: i64) -> (r: Result<
        (),
        CacheFault,
    >)
        requires
            old(self).wf(),
        ensures
            final(self).wf(),
            final(self)@ == spec_set(old(self)@, key@, value@, ttl_seconds, now),
            r == if ttl_seconds == 0 {
                Err::<(), CacheFault>(CacheFault::InvalidExpiry)
            } else {
                Ok::<(), CacheFault>(())
            },
    {
        if ttl_seconds == 0 {
            return Err(CacheFault::InvalidExpiry);
        }
        self.put(key, String::from_str(value), expiry(now, ttl_seconds));
        Ok(())
    }

    /// Removes the entry under `key`. Nothing happens, and nothing fails,
    /// when there is none.
    pub fn delete(&mut self, key: &str)
        requires
            old(self).wf(),
        ensures
            final(self).wf(),
            final(self)@ == old(self)@.remove(key@),
    {
        match self.find(key) {
            Some(i) => {
                proof {
                    lemma_remove_at(self.entries@, entry_key(), i as int);
                }
                self.entries.remove(i);
                proof {
                    lemma_map_drop(
                        old(self).entries@,
                        self.entries@,
                        entry_key(),
                        entry_value(),
                        key@,
                    );
                }
            },
            None => {
                assert(self@ =~= old(self)@.remove(key@));
            },
        }
    }

    /// Gives the entry under `key` a new lifetime counted from `now`.
    /// Returns whether there was an unexpired entry to change.
    pub fn expire(&mut self, key: &str, ttl_seconds: usize, now: i64) -> (changed: bool)
        requires
            old(self).wf(),
        ensures
            final(self).wf(),
            final(self)@ == spec_expire(old(self)@, key@, ttl_seconds, now),
            changed == spec_get(old(self)@, key@, now) is Some,
    {
        match self.find(key) {
            Some(i) => {
                if now < self.entries[i].expires_at {
                    let value = self.entries[i].value.clone();
                    self.put(key, value, expiry(now, ttl_seconds));
                    true
                } else {
                    false
                }
            },
            None => false,
        }
    }
}

/// The keys that `prefix` opens.
pub open spec fn keys_under(prefix: Seq<char>) -> Set<Seq<char>> {
    Set::new(|k: Seq<char>| is_prefix(prefix, k))
}

impl CacheRepo {
    /// Removes every entry whose key starts with `prefix`.
    pub fn delete_prefix(&mut self, prefix: &str)
        requires
            old(self).wf(),
        ensures
            final(self).wf(),
            final(self)@ == old(self)@.remove_keys(keys_under(prefix@)),
    {
        let mut i: usize = 0;
        while i < self.entries.len()
            invariant
                self.wf(),
                i <= self.entries@.len(),
                forall|j: int| 0 <= j < i ==> !is_prefix(prefix@, self.entries@[j].key@),
                forall|k: Seq<char>|
                    !is_prefix(prefix@, k) ==> (#[trigger] self@.dom().contains(k)) == old(
                        self,
                    )@.dom().contains(k),
                forall|k: Seq<char>| #[trigger]
                    self@.dom().contains(k) ==> old(self)@.dom().contains(k) && self@[k] == old(
                        self,
                    )@[k],
            decreases self.entries@.len() - i,
        {
            if starts_with(self.entries[i].key.as_str(), prefix) {
                let ghost before = *self;
                let ghost gone = self.entries@[i as int].key@;
                proof {
                    lemma_remove_at(self.entries@, entry_key(), i as int);
                }
                self.entries.remove(i);
                proof {
                    lemma_map_drop(
                        before.entries@,
                        self.entries@,
                        entry_key(),
                        entry_value(),
                        gone,
                    );
                    assert(self@ == before@.remove(gone));
                    assert(is_prefix(prefix@, gone));
                    assert forall|k: Seq<char>|
                        !is_prefix(prefix@, k) implies (#[trigger] self@.dom().contains(k))
                        == old(self)@.dom().contains(k) by {
                        assert(before@.dom().contains(k) == old(self)@.dom().contains(k));
                    }
                    assert forall|k: Seq<char>| #[trigger] self@.dom().contains(k) implies old(
                        self,
                    )@.dom().contains(k) && self@[k] == old(self)@[k] by {
                        assert(before@.dom().contains(k));
                    }
                    assert forall|j: int| 0 <= j < i implies !is_prefix(
                        prefix@,
                        self.entries@[j].key@,
                    ) by {
                        assert(self.entries@[j] == before.entries@[j]);
                    }
                }
            } else {
                i = i + 1;
            }
        }
        proof {
            let expected = old(self)@.remove_keys(keys_under(prefix@));
            assert forall|k: Seq<char>| #[trigger]
                self@.dom().contains(k) == expected.dom().contains(k) by {
                if is_prefix(prefix@, k) && self@.dom().contains(k) {
                    let p = position_of(self.entries@, entry_key(), k);
                    assert(self.entries@[p].key@ == k);
                }
            }
            assert(self@ =~= expected);
        }
    }
}

/// A character that means something else than itself in a key pattern.
pub open spec fn is_pattern_sign(c: char) -> bool {
    c == '*' || c == '?' || c == '[' || c == ']' || c == '\\'
}

/// `text` written so that a key pattern reads it as these very characters:
/// every character that means something in a pattern has a backslash
/// before it.
pub open spec fn spec_literal_pattern(text: Seq<char>) -> Seq<char>
    decreases text.len(),
{
    if text.len() == 0 {
        Seq::<char>::empty()
    } else if is_pattern_sign(text.last()) {
        spec_literal_pattern(text.drop_last()).push('\\').push(text.last())
    } else {
        spec_literal_pattern(text.drop_last()).push(text.last())
    }
}

/// The key pattern for every key that starts with `prefix`: the prefix
/// taken literally, then a star.
pub open spec fn spec_prefix_pattern(prefix: Seq<char>) -> Seq<char> {
    spec_literal_pattern(prefix).push('*')
}

/// Writes the key pattern that a backing store with pattern lookup takes
/// for the keys under `prefix`.
pub fn prefix_pattern(prefix: &str) -> (pattern: String)
    ensures
        pattern@ == spec_prefix_pattern(prefix@),
{
    let n = prefix.unicode_len();
    let mut pattern = String::new();
    let mut i: usize = 0;
    proof {
        reveal_strlit("\\");
        reveal_strlit("*");
        assert(prefix@.take(0) =~= Seq::<char>::empty());
    }
    while i < n
        invariant
            n == prefix@.len(),
            i <= n,
            pattern@ == spec_literal_pattern(prefix@.take(i as int)),
            "\\"@ == seq!['\\'],
        decreases n - i,
    {
        let c = prefix.get_char(i);
        if c == '*' || c == '?' || c == '[' || c == ']' || c == '\\' {
            pattern.append("\\");
        }
        pattern.append(prefix.substring_char(i, i + 1));
        proof {
            let done = prefix@.take(i + 1);
            assert(done.drop_last() =~= prefix@.take(i as int));
            assert(done.last() == c);
            assert(prefix@.subrange(i as int, i + 1) =~= seq![c]);
            assert(pattern@ =~= spec_literal_pattern(done));
        }
        i = i + 1;
    }
    assert(prefix@.take(n as int) =~= prefix@);
    pattern.append("*");
    assert(pattern@ =~= spec_prefix_pattern(prefix@));
    pattern
}

/// Something to drop from the cache after a write to durable storage.
#[derive(Debug)]
pub enum Invalidation {
    /// The entry under this key.
    Key(String),
    /// Every entry whose key starts with this text.
    Prefix(String),
}

/// The cache after one invalidation.
pub open spec fn spec_invalidate(m: Map<Seq<char>, Cached>, inv: Invalidation) -> Map<
    Seq<char>,
    Cached,
> {
    match inv {
        Invalidation::Key(k) => m.remove(k@),
        Invalidation::Prefix(p) => m.remove_keys(keys_under(p@)),
    }
}

/// The cache after a run of invalidations, applied in order.
pub open spec fn spec_invalidate_all(m: Map<Seq<char>, Cached>, invs: Seq<Invalidation>) -> Map<
    Seq<char>,
    Cached,
>
    decreases invs.len(),
{
    if invs.len() == 0 {
        m
    } else {
        spec_invalidate(spec_invalidate_all(m, invs.drop_last()), invs.last())
    }
}

impl CacheRepo {
    /// Drops what the invalidation names.
    pub fn invalidate(&mut self, inv: &Invalidation)
        requires
            old(self).wf(),
        ensures
            final(self).wf(),
            final(self)@ == spec_invalidate(old(self)@, *inv),
    {
        match inv {
            Invalidation::Key(k) => self.delete(k.as_str()),
            Invalidation::Prefix(p) => self.delete_prefix(p.as_str()),
        }
    }

    /// Drops what the invalidations name, in order.
    pub fn invalidate_all(&mut self, invs: &Vec<Invalidation>)
        requires
            old(self).wf(),
        ensures
            final(self).wf(),
            final(self)@ == spec_invalidate_all(old(self)@, invs@),
    {
        let mut i: usize = 0;
        while i < invs.len()
            invariant
                self.wf(),
                i <= invs@.len(),
                self@ == spec_invalidate_all(old(self)@, invs@.take(i as int)),
            decreases invs@.len() - i,
        {
            self.invalidate(&invs[i]);
            proof {
                let done = invs@.take(i + 1);
                assert(done.drop_last() =~= invs@.take(i as int));
                assert(done.last() == invs@[i as int]);
            }
            i = i + 1;
        }
        assert(invs@.take(i as int) =~= invs@);
    }
}

/// An invalidation never brings an entry into the cache: whatever was
/// missing before is missing after.
pub proof fn lemma_invalidation_only_removes(
    m: Map<Seq<char>, Cached>,
    invs: Seq<Invalidation>,
    key: Seq<char>,
)
    requires
        !m.dom().contains(key),
    ensures
        !spec_invalidate_all(m, invs).dom().contains(key),
    decreases invs.len(),
{
    if invs.len() > 0 {
        lemma_invalidation_only_removes(m, invs.drop_last(), key);
    }
}

/// A write to the cache.
pub enum CacheWrite {
    Store { key: Seq<char>, value: Seq<char>, ttl_seconds: usize, now: i64 },
    Remove { key: Seq<char> },
    RemoveUnder { prefix: Seq<char> },
    Renew { key: Seq<char>, ttl_seconds: usize, now: i64 },
}

impl CacheWrite {
    /// The write stores a value under `key`.
    pub open spec fn sets(self, key: Seq<char>) -> bool {
        self matches CacheWrite::Store { key: k, .. } && k == key
    }
}

/// The cache after one write.
pub open spec fn spec_write(m: Map<Seq<char>, Cached>, w: CacheWrite) -> Map<Seq<char>, Cached> {
    match w {
        CacheWrite::Store { key, value, ttl_seconds, now } => spec_set(
            m,
            key,
            value,
            ttl_seconds,
            now,
        ),
        CacheWrite::Remove { key } => m.remove(key),
        CacheWrite::RemoveUnder { prefix } => m.remove_keys(keys_under(prefix)),
        CacheWrite::Renew { key, ttl_seconds, now } => spec_expire(m, key, ttl_seconds, now),
    }
}

/// The cache after a run of writes, applied in order.
pub open spec fn spec_writes(m: Map<Seq<char>, Cached>, ws: Seq<CacheWrite>) -> Map<
    Seq<char>,
    Cached,
>
    decreases ws.len(),
{
    if ws.len() == 0 {
        m
    } else {
        spec_write(spec_writes(m, ws.drop_last()), ws.last())
    }
}

/// Cache-aside consistency: once a key is invalidated, every read of it
/// misses, at whatever time and after whatever other writes, until a value
/// is set under that key again.
pub proof fn lemma_invalidated_until_set(
    m: Map<Seq<char>, Cached>,
    key: Seq<char>,
    ws: Seq<CacheWrite>,
    now: i64,
)
    requires
        forall|i: int| 0 <= i < ws.len() ==> !(#[trigger] ws[i]).sets(key),
    ensures
        !spec_writes(m.remove(key), ws).dom().contains(key),
        spec_get(spec_writes(m.remove(key), ws), key, now) is None,
    decreases ws.len(),
{
    if ws.len() > 0 {
        let earlier = ws.drop_last();
        assert forall|i: int| 0 <= i < earlier.len() implies !(#[trigger] earlier[i]).sets(key) by {
            assert(earlier[i] == ws[i]);
        }
        lemma_invalidated_until_set(m, key, earlier, now);
        assert(!ws.last().sets(key));
    }
}

/// A value that was set is served, unchanged, at every moment before its
/// lifetime is over, and never from then on.
pub proof fn lemma_set_then_get(
    m: Map<Seq<char>, Cached>,
    key: Seq<char>,
    value: Seq<char>,
    ttl_seconds: usize,
    now: i64,
    later: i64,
)
    requires
        ttl_seconds > 0,
    ensures
        spec_get(spec_set(m, key, value, ttl_seconds, now), key, later) == if later < spec_expiry(
            now,
            ttl_seconds,
        ) {
            Some(value)
        } else {
            None
        },
{
}

/// A write under one key never changes what a read of another key serves.
pub proof fn lemma_keys_independent(
    m: Map<Seq<char>, Cached>,
    w: CacheWrite,
    other: Seq<char>,
    now: i64,
)
    requires
        match w {
            CacheWrite::Store { key, .. } => key != other,
            CacheWrite::Remove { key } => key != other,
            CacheWrite::RemoveUnder { prefix } => !is_prefix(prefix, other),
            CacheWrite::Renew { key, .. } => key != other,
        },
    ensures
        spec_get(spec_write(m, w), other, now) == spec_get(m, other, now),
{
}

} // verus!
