//! Advisory locks keyed by an application-chosen id.
//!
//! A lock names a logical resource, not a row: it can be taken before any
//! data exists. Locks belong to a holder (one session of one instance) and
//! are re-entrant for that holder: each successful acquisition has to be
//! given back once. Nothing here ever waits.

use crate::keyed::{
    distinct_keys, keyed_map, lemma_entry_absent, lemma_entry_at, lemma_map_drop, lemma_map_put,
    lemma_push_fresh, lemma_remove_at, lemma_replace_at, position_of,
};
use vstd::prelude::*;

verus! {

/// Who holds a lock and how many acquisitions are outstanding.
#[derive(Debug, Clone, Copy, PartialEq, Eq, Structural)]
pub struct Holding {
    pub holder: u64,
    pub depth: u64,
}

#[derive(Debug, Clone, Copy, PartialEq, Eq, Structural)]
pub struct LockHold {
    pub lock_id: i64,
    pub holder: u64,
    pub depth: u64,
}

/// The locks currently held through one backing store.
pub struct LockTable {
    holds: Vec<LockHold>,
}

pub open spec fn hold_key() -> spec_fn(LockHold) -> i64 {
    |h: LockHold| h.lock_id
}

pub open spec fn hold_value() -> spec_fn(LockHold) -> Holding {
    |h: LockHold| Holding { holder: h.holder, depth: h.depth }
}

/// The lock table after `holder` tries to take `lock_id`, and whether the
/// lock was granted. A free lock is granted; a lock the holder already has
/// is granted again unless its depth cannot grow; a lock held by someone
/// else is refused. A refusal changes nothing.
pub open spec fn spec_try_acquire(m: Map<i64, Holding>, lock_id: i64, holder: u64) -> (
    Map<i64, Holding>,
    bool,
) {
    if !m.dom().contains(lock_id) {
        (m.insert(lock_id, Holding { holder, depth: 1 }), true)
    } else if m[lock_id].holder == holder && m[lock_id].depth < u64::MAX {
        (m.insert(lock_id, Holding { holder, depth: (m[lock_id].depth + 1) as u64 }), true)
    } else {
        (m, false)
    }
}

/// The lock table after `holder` gives `lock_id` back once, and whether
/// there was anything to give back. Only the holder can release; the lock
/// becomes free when the last acquisition is given back.
pub open spec fn spec_release(m: Map<i64, Holding>, lock_id: i64, holder: u64) -> (
    Map<i64, Holding>,
    bool,
) {
    if m.dom().contains(lock_id) && m[lock_id].holder == holder {
        if m[lock_id].depth > 1 {
            (m.insert(lock_id, Holding { holder, depth: (m[lock_id].depth - 1) as u64 }), true)
        } else {
            (m.remove(lock_id), true)
        }
    } else {
        (m, false)
    }
}

impl LockTable {
    /// No lock is listed twice and every listed lock is actually held.
    pub closed spec fn wf(&self) -> bool {
        &&& distinct_keys(self.holds@, hold_key())
        &&& forall|i: int| 0 <= i < self.holds@.len() ==> (#[trigger] self.holds@[i]).depth >= 1
    }

    /// The held locks, each with its holder.
    pub closed spec fn view(&self) -> Map<i64, Holding> {
        keyed_map(self.holds@, hold_key(), hold_value())
    }

    /// Every held lock has at least one acquisition outstanding.
    pub proof fn lemma_held_depth(&self, lock_id: i64)
        requires
            self.wf(),
            self@.dom().contains(lock_id),
        ensures
            self@[lock_id].depth >= 1,
    {
        let i = position_of(self.holds@, hold_key(), lock_id);
        assert(self.holds@[i].depth >= 1);
    }

    /// A table in which every lock is free.
    pub fn new() -> (t: LockTable)
        ensures
            t.wf(),
            t@ == Map::<i64, Holding>::empty(),
    {
        let t = LockTable { holds: Vec::new() };
        assert(t@ =~= Map::<i64, Holding>::empty());
        t
    }

    fn find(&self, lock_id: i64) -> (r: Option<usize>)
        requires
            self.wf(),
        ensures
            match r {
                Some(i) => i < self.holds@.len() && self.holds@[i as int].lock_id == lock_id
                    && self@.dom().contains(lock_id) && self@[lock_id] == hold_value()(
                    self.holds@[i as int],
                ),
                None => !self@.dom().contains(lock_id) && forall|j: int|
                    0 <= j < self.holds@.len() ==> self.holds@[j].lock_id != lock_id,
            },
    {
        let mut i: usize = 0;
        while i < self.holds.len()
            invariant
                self.wf(),
                i <= self.holds@.len(),
                forall|j: int| 0 <= j < i ==> self.holds@[j].lock_id != lock_id,
            decreases self.holds@.len() - i,
        {
            if self.holds[i].lock_id == lock_id {
                proof {
                    lemma_entry_at(self.holds@, hold_key(), i as int);
                }
                return Some(i);
            }
            i = i + 1;
        }
        proof {
            lemma_entry_absent(self.holds@, hold_key(), lock_id);
        }
        None
    }

    /// Who holds `lock_id`, if anyone.
    pub fn holder_of(&self, lock_id: i64) -> (r: Option<u64>)
        requires
            self.wf(),
        ensures
            r == if self@.dom().contains(lock_id) {
                Some(self@[lock_id].holder)
            } else {
                None
            },
    {
        match self.find(lock_id) {
            Some(i) => Some(self.holds[i].holder),
            None => None,
        }
    }

    /// Lists `hold` as the holding of its lock, in place of what was
    /// listed for that lock, if anything.
    fn put(&mut self, found: Option<usize>, hold: LockHold)
        requires
            old(self).wf(),
            hold.depth >= 1,
            match found {
                Some(i) => i < old(self).holds@.len() && old(self).holds@[i as int].lock_id
                    == hold.lock_id,
                None => forall|j: int|
                    0 <= j < old(self).holds@.len() ==> old(self).holds@[j].lock_id != hold.lock_id,
            },
        ensures
            final(self).wf(),
            final(self)@ == old(self)@.insert(hold.lock_id, hold_value()(hold)),
    {
        match found {
            Some(i) => {
                proof {
                    lemma_replace_at(self.holds@, hold_key(), i as int, hold);
                }
                self.holds.set(i, hold);
            },
            None => {
                proof {
                    lemma_entry_absent(self.holds@, hold_key(), hold.lock_id);
                    lemma_push_fresh(self.holds@, hold_key(), hold);
                }
                self.holds.push(hold);
            },
        }
        proof {
            lemma_map_put(old(self).holds@, self.holds@, hold_key(), hold_value(), hold);
        }
    }

    /// Tries once to take `lock_id` for `holder` and returns at once:
    /// true if the lock is now held by `holder` through this call, false if
    /// it stays with whoever had it.
    pub fn try_acquire(&mut self, lock_id: i64, holder: u64) -> (granted: bool)
        requires
            old(self).wf(),
        ensures
            final(self).wf(),
            (final(self)@, granted) == spec_try_acquire(old(self)@, lock_id, holder),
    {
        let found = self.find(lock_id);
        match found {
            None => {
                self.put(found, LockHold { lock_id, holder, depth: 1 });
                true
            },
            Some(i) => {
                let current = self.holds[i];
                if current.holder == holder && current.depth < u64::MAX {
                    self.put(found, LockHold { lock_id, holder, depth: current.depth + 1 });
                    true
                } else {
                    false
                }
            },
        }
    }

    /// Gives `lock_id` back once on behalf of `holder`. Returns false, and
    /// changes nothing, when `holder` does not hold the lock.
    pub fn release(&mut self, lock_id: i64, holder: u64) -> (released: bool)
        requires
            old(self).wf(),
        ensures
            final(self).wf(),
            (final(self)@, released) == spec_release(old(self)@, lock_id, holder),
    {
        let found = self.find(lock_id);
        match found {
            None => false,
            Some(i) => {
                let current = self.holds[i];
                if current.holder != holder {
                    return false;
                }
                if current.depth > 1 {
                    self.put(found, LockHold { lock_id, holder, depth: current.depth - 1 });
                } else {
                    proof {
                        lemma_remove_at(self.holds@, hold_key(), i as int);
                    }
                    self.holds.remove(i);
                    proof {
                        lemma_map_drop(
                            old(self).holds@,
                            self.holds@,
                            hold_key(),
                            hold_value(),
                            lock_id,
                        );
                    }
                }
                true
            },
        }
    }
}

/// Mutual exclusion: when two different holders try the same lock one
/// after the other against the same table, at most one of them is granted
/// it, whatever the table held before.
pub proof fn lemma_mutual_exclusion(m: Map<i64, Holding>, lock_id: i64, a: u64, b: u64)
    requires
        a != b,
    ensures
        ({
            let first = spec_try_acquire(m, lock_id, a);
            let second = spec_try_acquire(first.0, lock_id, b);
            !(first.1 && second.1)
        }),
{
}

/// While a holder has a lock, every attempt by anyone else is refused and
/// leaves the table as it is.
pub proof fn lemma_held_lock_refuses_others(m: Map<i64, Holding>, lock_id: i64, other: u64)
    requires
        m.dom().contains(lock_id),
        m[lock_id].holder != other,
    ensures
        spec_try_acquire(m, lock_id, other) == (m, false),
{
}

/// A lock taken from free and given back once is free again, with the
/// table as it was.
pub proof fn lemma_acquire_release_restores(m: Map<i64, Holding>, lock_id: i64, holder: u64)
    requires
        !m.dom().contains(lock_id),
    ensures
        ({
            let taken = spec_try_acquire(m, lock_id, holder);
            let given_back = spec_release(taken.0, lock_id, holder);
            taken.1 && given_back.1 && given_back.0 == m
        }),
{
    let taken = spec_try_acquire(m, lock_id, holder);
    let given_back = spec_release(taken.0, lock_id, holder);
    assert(given_back.0 =~= m);
}

/// Taking or giving back one lock never touches another.
pub proof fn lemma_locks_independent(
    m: Map<i64, Holding>,
    lock_id: i64,
    holder: u64,
    other_lock: i64,
)
    requires
        other_lock != lock_id,
    ensures
        spec_try_acquire(m, lock_id, holder).0.dom().contains(other_lock) == m.dom().contains(
            other_lock,
        ),
        m.dom().contains(other_lock) ==> spec_try_acquire(m, lock_id, holder).0[other_lock]
            == m[other_lock],
        spec_release(m, lock_id, holder).0.dom().contains(other_lock) == m.dom().contains(
            other_lock,
        ),
        m.dom().contains(other_lock) ==> spec_release(m, lock_id, holder).0[other_lock]
            == m[other_lock],
{
}

} // verus!
