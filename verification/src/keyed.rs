//! Sequences in which every entry carries a key and no key occurs twice.
//!
//! The stores of this crate keep their entries in such sequences. The
//! definitions here say what "the entry for a key" means and give the facts
//! the stores need when they add, replace or drop an entry.

use vstd::prelude::*;

verus! {

/// No two positions of `s` carry the same key.
pub open spec fn distinct_keys<E, K>(s: Seq<E>, key: spec_fn(E) -> K) -> bool {
    forall|i: int, j: int| 0 <= i < s.len() && 0 <= j < s.len() && i != j ==> key(s[i]) != key(s[j])
}

/// Some position of `s` carries the key `k`.
pub open spec fn has_key<E, K>(s: Seq<E>, key: spec_fn(E) -> K, k: K) -> bool {
    exists|i: int| 0 <= i < s.len() && key(#[trigger] s[i]) == k
}

/// A position of `s` that carries the key `k`, if there is one.
pub open spec fn position_of<E, K>(s: Seq<E>, key: spec_fn(E) -> K, k: K) -> int {
    choose|i: int| 0 <= i < s.len() && key(#[trigger] s[i]) == k
}

/// The entry of `s` for the key `k`.
pub open spec fn entry_for<E, K>(s: Seq<E>, key: spec_fn(E) -> K, k: K) -> Option<E> {
    if has_key(s, key, k) {
        Some(s[position_of(s, key, k)])
    } else {
        None
    }
}

/// With distinct keys, the entry for the key found at position `i` is the
/// entry at position `i`.
pub proof fn lemma_entry_at<E, K>(s: Seq<E>, key: spec_fn(E) -> K, i: int)
    requires
        distinct_keys(s, key),
        0 <= i < s.len(),
    ensures
        has_key(s, key, key(s[i])),
        position_of(s, key, key(s[i])) == i,
        entry_for(s, key, key(s[i])) == Some(s[i]),
{
    let k = key(s[i]);
    assert(key(s[i]) == k);
    let p = position_of(s, key, k);
    assert(0 <= p < s.len() && key(s[p]) == k);
}

/// A key that no position carries has no entry.
pub proof fn lemma_entry_absent<E, K>(s: Seq<E>, key: spec_fn(E) -> K, k: K)
    requires
        forall|i: int| 0 <= i < s.len() ==> key(s[i]) != k,
    ensures
        !has_key(s, key, k),
        entry_for(s, key, k) is None,
{
}

/// Appending an entry under a key that is not yet there keeps the keys
/// distinct, makes it the entry for its key and leaves every other key's
/// entry as it was.
pub proof fn lemma_push_fresh<E, K>(s: Seq<E>, key: spec_fn(E) -> K, e: E)
    requires
        distinct_keys(s, key),
        !has_key(s, key, key(e)),
    ensures
        distinct_keys(s.push(e), key),
        entry_for(s.push(e), key, key(e)) == Some(e),
        forall|k: K| k != key(e) ==> entry_for(s.push(e), key, k) == entry_for(s, key, k),
{
    let t = s.push(e);
    assert forall|i: int, j: int| 0 <= i < t.len() && 0 <= j < t.len() && i != j implies key(t[i])
        != key(t[j]) by {
        if i < s.len() {
            assert(t[i] == s[i]);
        }
        if j < s.len() {
            assert(t[j] == s[j]);
        }
    }
    assert(t[s.len() as int] == e);
    lemma_entry_at(t, key, s.len() as int);
    assert forall|k: K| k != key(e) implies entry_for(t, key, k) == entry_for(s, key, k) by {
        if has_key(s, key, k) {
            let p = position_of(s, key, k);
            assert(t[p] == s[p]);
            lemma_entry_at(t, key, p);
            lemma_entry_at(s, key, p);
        } else {
            assert forall|i: int| 0 <= i < t.len() implies key(t[i]) != k by {
                if i < s.len() {
                    assert(t[i] == s[i]);
                }
            }
            lemma_entry_absent(t, key, k);
        }
    }
}

/// Replacing the entry at position `i` by one with the same key keeps the
/// keys distinct, makes it the entry for its key and leaves every other
/// key's entry as it was.
pub proof fn lemma_replace_at<E, K>(s: Seq<E>, key: spec_fn(E) -> K, i: int, e: E)
    requires
        distinct_keys(s, key),
        0 <= i < s.len(),
        key(s[i]) == key(e),
    ensures
        distinct_keys(s.update(i, e), key),
        entry_for(s.update(i, e), key, key(e)) == Some(e),
        forall|k: K| k != key(e) ==> entry_for(s.update(i, e), key, k) == entry_for(s, key, k),
{
    let t = s.update(i, e);
    assert forall|a: int, b: int| 0 <= a < t.len() && 0 <= b < t.len() && a != b implies key(t[a])
        != key(t[b]) by {
        assert(key(t[a]) == key(s[a]));
        assert(key(t[b]) == key(s[b]));
    }
    lemma_entry_at(t, key, i);
    assert forall|k: K| k != key(e) implies entry_for(t, key, k) == entry_for(s, key, k) by {
        if has_key(s, key, k) {
            let p = position_of(s, key, k);
            assert(p != i);
            assert(t[p] == s[p]);
            lemma_entry_at(t, key, p);
            lemma_entry_at(s, key, p);
        } else {
            assert forall|a: int| 0 <= a < t.len() implies key(t[a]) != k by {
                assert(key(t[a]) == key(s[a]));
            }
            lemma_entry_absent(t, key, k);
        }
    }
}

/// Dropping the entry at position `i` keeps the keys distinct, leaves its
/// key without an entry and every other key's entry as it was.
pub proof fn lemma_remove_at<E, K>(s: Seq<E>, key: spec_fn(E) -> K, i: int)
    requires
        distinct_keys(s, key),
        0 <= i < s.len(),
    ensures
        distinct_keys(s.remove(i), key),
        entry_for(s.remove(i), key, key(s[i])) is None,
        forall|k: K| k != key(s[i]) ==> entry_for(s.remove(i), key, k) == entry_for(s, key, k),
{
    let t = s.remove(i);
    let gone = key(s[i]);
    assert forall|a: int| 0 <= a < t.len() implies #[trigger] t[a] == s[if a < i {
        a
    } else {
        a + 1
    }] by {}
    assert forall|a: int, b: int| 0 <= a < t.len() && 0 <= b < t.len() && a != b implies key(t[a])
        != key(t[b]) by {
        let a0 = if a < i { a } else { a + 1 };
        let b0 = if b < i { b } else { b + 1 };
        assert(t[a] == s[a0]);
        assert(t[b] == s[b0]);
    }
    assert forall|a: int| 0 <= a < t.len() implies key(t[a]) != gone by {
        let a0 = if a < i { a } else { a + 1 };
        assert(t[a] == s[a0]);
    }
    lemma_entry_absent(t, key, gone);
    assert forall|k: K| k != gone implies entry_for(t, key, k) == entry_for(s, key, k) by {
        if has_key(s, key, k) {
            let p = position_of(s, key, k);
            assert(p != i);
            let q = if p < i { p } else { p - 1 };
            assert(t[q] == s[p]);
            lemma_entry_at(t, key, q);
            lemma_entry_at(s, key, p);
        } else {
            assert forall|a: int| 0 <= a < t.len() implies key(t[a]) != k by {
                let a0 = if a < i { a } else { a + 1 };
                assert(t[a] == s[a0]);
            }
            lemma_entry_absent(t, key, k);
        }
    }
}

/// Exactly one position of `s` carries the key `k`.
pub open spec fn exactly_one<E, K>(s: Seq<E>, key: spec_fn(E) -> K, k: K) -> bool {
    exists|i: int|
        0 <= i < s.len() && key(#[trigger] s[i]) == k && forall|j: int|
            0 <= j < s.len() && j != i ==> key(s[j]) != k
}

/// With distinct keys, a key that has an entry has exactly one.
pub proof fn lemma_exactly_one<E, K>(s: Seq<E>, key: spec_fn(E) -> K, k: K)
    requires
        distinct_keys(s, key),
        has_key(s, key, k),
    ensures
        exactly_one(s, key, k),
{
    let p = position_of(s, key, k);
    assert(0 <= p < s.len() && key(s[p]) == k);
}

/// Putting an entry under a key that is not yet there at position `i`
/// keeps the keys distinct, makes it the entry for its key and leaves every
/// other key's entry as it was.
pub proof fn lemma_insert_fresh<E, K>(s: Seq<E>, key: spec_fn(E) -> K, i: int, e: E)
    requires
        distinct_keys(s, key),
        !has_key(s, key, key(e)),
        0 <= i <= s.len(),
    ensures
        distinct_keys(s.insert(i, e), key),
        entry_for(s.insert(i, e), key, key(e)) == Some(e),
        forall|k: K| k != key(e) ==> entry_for(s.insert(i, e), key, k) == entry_for(s, key, k),
{
    let t = s.insert(i, e);
    assert forall|a: int| 0 <= a < t.len() && a != i implies #[trigger] t[a] == s[if a < i {
        a
    } else {
        a - 1
    }] by {}
    assert(t[i] == e);
    assert forall|a: int, b: int| 0 <= a < t.len() && 0 <= b < t.len() && a != b implies key(t[a])
        != key(t[b]) by {
        let a0 = if a < i { a } else { a - 1 };
        let b0 = if b < i { b } else { b - 1 };
        if a != i {
            assert(t[a] == s[a0]);
        }
        if b != i {
            assert(t[b] == s[b0]);
        }
    }
    lemma_entry_at(t, key, i);
    assert forall|k: K| k != key(e) implies entry_for(t, key, k) == entry_for(s, key, k) by {
        if has_key(s, key, k) {
            let p = position_of(s, key, k);
            let q = if p < i { p } else { p + 1 };
            assert(t[q] == s[p]);
            lemma_entry_at(t, key, q);
            lemma_entry_at(s, key, p);
        } else {
            assert forall|a: int| 0 <= a < t.len() implies key(t[a]) != k by {
                let a0 = if a < i { a } else { a - 1 };
                if a != i {
                    assert(t[a] == s[a0]);
                }
            }
            lemma_entry_absent(t, key, k);
        }
    }
}

/// The entries of `s` as a map from each key to what `value` reads from
/// the entry for it.
pub open spec fn keyed_map<E, K, V>(s: Seq<E>, key: spec_fn(E) -> K, value: spec_fn(E) -> V) -> Map<
    K,
    V,
> {
    Map::new(|k: K| has_key(s, key, k), |k: K| value(entry_for(s, key, k).unwrap()))
}

/// When `e` has become the entry for its key and every other key's entry
/// is as it was, the map has gained exactly that key's value.
pub proof fn lemma_map_put<E, K, V>(
    before: Seq<E>,
    after: Seq<E>,
    key: spec_fn(E) -> K,
    value: spec_fn(E) -> V,
    e: E,
)
    requires
        entry_for(after, key, key(e)) == Some(e),
        forall|k: K| k != key(e) ==> entry_for(after, key, k) == entry_for(before, key, k),
    ensures
        keyed_map(after, key, value) == keyed_map(before, key, value).insert(key(e), value(e)),
{
    let got = keyed_map(after, key, value);
    let expected = keyed_map(before, key, value).insert(key(e), value(e));
    assert forall|k: K| #[trigger] got.dom().contains(k) == expected.dom().contains(k) by {
        if k != key(e) {
            assert(entry_for(after, key, k) == entry_for(before, key, k));
        }
    }
    assert forall|k: K| expected.dom().contains(k) implies #[trigger] got[k] == expected[k] by {
        if k != key(e) {
            assert(entry_for(after, key, k) == entry_for(before, key, k));
        }
    }
    assert(got =~= expected);
}

/// When the key `gone` has lost its entry and every other key's entry is
/// as it was, the map has lost exactly that key.
pub proof fn lemma_map_drop<E, K, V>(
    before: Seq<E>,
    after: Seq<E>,
    key: spec_fn(E) -> K,
    value: spec_fn(E) -> V,
    gone: K,
)
    requires
        entry_for(after, key, gone) is None,
        forall|k: K| k != gone ==> entry_for(after, key, k) == entry_for(before, key, k),
    ensures
        keyed_map(after, key, value) == keyed_map(before, key, value).remove(gone),
{
    let got = keyed_map(after, key, value);
    let expected = keyed_map(before, key, value).remove(gone);
    assert forall|k: K| #[trigger] got.dom().contains(k) == expected.dom().contains(k) by {
        if k != gone {
            assert(entry_for(after, key, k) == entry_for(before, key, k));
        }
    }
    assert forall|k: K| expected.dom().contains(k) implies #[trigger] got[k] == expected[k] by {
        assert(entry_for(after, key, k) == entry_for(before, key, k));
    }
    assert(got =~= expected);
}

} // verus!
