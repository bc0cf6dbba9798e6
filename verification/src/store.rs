//! Keyed storage modelled as association vectors with distinct keys.
//!
//! Every map the ledger owns (accounts, locks, referral edges, commission
//! entries) is a `Vec` of key-value pairs whose keys are pairwise distinct.
//! The spec functions here say what such a vector holds; the exec functions
//! look keys up.

use vstd::prelude::*;

verus! {

/// The keys of the pairs are pairwise distinct.
pub open spec fn keys_distinct<K, V>(s: Seq<(K, V)>) -> bool {
    forall|i: int, j: int| 0 <= i < j < s.len() ==> (#[trigger] s[i]).0 != (#[trigger] s[j]).0
}

/// Some pair carries the key `k`.
pub open spec fn has_key<K, V>(s: Seq<(K, V)>, k: K) -> bool {
    exists|i: int| 0 <= i < s.len() && (#[trigger] s[i]).0 == k
}

/// The index of the pair carrying `k`; meaningful when the keys are
/// distinct and `k` occurs.
pub open spec fn key_index<K, V>(s: Seq<(K, V)>, k: K) -> int {
    choose|i: int| 0 <= i < s.len() && (#[trigger] s[i]).0 == k
}

/// The value stored under `k`.
pub open spec fn value_of<K, V>(s: Seq<(K, V)>, k: K) -> V
    recommends
        has_key(s, k),
{
    s[key_index(s, k)].1
}

/// With distinct keys, a pair carrying `k` at index `i` pins `key_index`
/// and `value_of`.
pub proof fn lemma_key_at<K, V>(s: Seq<(K, V)>, k: K, i: int)
    requires
        keys_distinct(s),
        0 <= i < s.len(),
        s[i].0 == k,
    ensures
        has_key(s, k),
        key_index(s, k) == i,
        value_of(s, k) == s[i].1,
{
    assert(has_key(s, k));
    let j = key_index(s, k);
    assert(0 <= j < s.len() && s[j].0 == k);
    if i != j {
        if i < j {
            assert(s[i].0 != s[j].0);
        } else {
            assert(s[j].0 != s[i].0);
        }
    }
}

/// Looks a key up in an association vector keyed by `u64`.
pub fn find_key<V>(v: &Vec<(u64, V)>, key: u64) -> (r: Option<usize>)
    ensures
        match r {
            Some(i) => i < v@.len() && v@[i as int].0 == key,
            None => !has_key(v@, key),
        },
{
    let mut i: usize = 0;
    while i < v.len()
        invariant
            i <= v@.len(),
            forall|j: int| 0 <= j < i ==> (#[trigger] v@[j]).0 != key,
        decreases v@.len() - i,
    {
        if v[i].0 == key {
            return Some(i);
        }
        i = i + 1;
    }
    None
}

/// Looks a pair key up in an association vector keyed by two `u64`s.
pub fn find_pair_key<V>(v: &Vec<((u64, u64), V)>, key: (u64, u64)) -> (r: Option<usize>)
    ensures
        match r {
            Some(i) => i < v@.len() && v@[i as int].0 == key,
            None => !has_key(v@, key),
        },
{
    let mut i: usize = 0;
    while i < v.len()
        invariant
            i <= v@.len(),
            forall|j: int| 0 <= j < i ==> (#[trigger] v@[j]).0 != key,
        decreases v@.len() - i,
    {
        if v[i].0.0 == key.0 && v[i].0.1 == key.1 {
            assert(v@[i as int].0 == key);
            return Some(i);
        }
        i = i + 1;
    }
    None
}

/// Updating the value under an existing key keeps the keys distinct and
/// changes only that key's value.
pub proof fn lemma_update_value<K, V>(s: Seq<(K, V)>, i: int, x: V)
    requires
        keys_distinct(s),
        0 <= i < s.len(),
    ensures
        keys_distinct(s.update(i, (s[i].0, x))),
        forall|k: K| has_key(s.update(i, (s[i].0, x)), k) == has_key(s, k),
        value_of(s.update(i, (s[i].0, x)), s[i].0) == x,
        forall|k: K| k != s[i].0 && has_key(s, k) ==> value_of(
            s.update(i, (s[i].0, x)),
            k,
        ) == value_of(s, k),
{
    let t = s.update(i, (s[i].0, x));
    assert forall|k: K| has_key(t, k) == has_key(s, k) by {
        if has_key(t, k) {
            let j = choose|j: int| 0 <= j < t.len() && (#[trigger] t[j]).0 == k;
            assert(s[j].0 == k);
            assert(has_key(s, k));
        }
        if has_key(s, k) {
            let j = choose|j: int| 0 <= j < s.len() && (#[trigger] s[j]).0 == k;
            assert(t[j].0 == k);
            assert(has_key(t, k));
        }
    }
    lemma_key_at(t, s[i].0, i);
    assert forall|k: K| k != s[i].0 && has_key(s, k) implies value_of(t, k) == value_of(
        s,
        k,
    ) by {
        let j = choose|j: int| 0 <= j < s.len() && (#[trigger] s[j]).0 == k;
        assert(j != i);
        assert(t[j].0 == k);
        lemma_key_at(s, k, j);
        lemma_key_at(t, k, j);
    }
}

/// Appending a fresh key keeps the keys distinct, adds that key and leaves
/// every other value in place.
pub proof fn lemma_push_fresh<K, V>(s: Seq<(K, V)>, k: K, x: V)
    requires
        keys_distinct(s),
        !has_key(s, k),
    ensures
        keys_distinct(s.push((k, x))),
        has_key(s.push((k, x)), k),
        value_of(s.push((k, x)), k) == x,
        forall|q: K| q != k ==> has_key(s.push((k, x)), q) == has_key(s, q),
        forall|q: K| q != k && has_key(s, q) ==> value_of(s.push((k, x)), q) == value_of(s, q),
{
    let t = s.push((k, x));
    assert forall|i: int, j: int| 0 <= i < j < t.len() implies (#[trigger] t[i]).0 != (
    #[trigger] t[j]).0 by {
        if j == s.len() {
            assert(t[i] == s[i]);
            if t[i].0 == k {
                assert(has_key(s, k));
            }
        } else {
            assert(t[i] == s[i] && t[j] == s[j]);
        }
    }
    lemma_key_at(t, k, s.len() as int);
    assert forall|q: K| q != k implies has_key(t, q) == has_key(s, q) by {
        if has_key(t, q) {
            let j = choose|j: int| 0 <= j < t.len() && (#[trigger] t[j]).0 == q;
            assert(j != s.len());
            assert(s[j].0 == q);
            assert(has_key(s, q));
        }
        if has_key(s, q) {
            let j = choose|j: int| 0 <= j < s.len() && (#[trigger] s[j]).0 == q;
            assert(t[j].0 == q);
            assert(has_key(t, q));
        }
    }
    assert forall|q: K| q != k && has_key(s, q) implies value_of(t, q) == value_of(s, q) by {
        let j = choose|j: int| 0 <= j < s.len() && (#[trigger] s[j]).0 == q;
        lemma_key_at(s, q, j);
        assert(t[j].0 == q);
        lemma_key_at(t, q, j);
    }
}

/// Removing the pair at an index keeps the keys distinct, drops that key
/// and leaves every other value in place.
pub proof fn lemma_remove_key<K, V>(s: Seq<(K, V)>, i: int)
    requires
        keys_distinct(s),
        0 <= i < s.len(),
    ensures
        keys_distinct(s.remove(i)),
        !has_key(s.remove(i), s[i].0),
        forall|q: K| q != s[i].0 ==> has_key(s.remove(i), q) == has_key(s, q),
        forall|q: K| q != s[i].0 && has_key(s, q) ==> value_of(s.remove(i), q) == value_of(s, q),
{
    let t = s.remove(i);
    let k = s[i].0;
    assert forall|a: int, b: int| 0 <= a < b < t.len() implies (#[trigger] t[a]).0 != (
    #[trigger] t[b]).0 by {
        let a0 = if a < i { a } else { a + 1 };
        let b0 = if b < i { b } else { b + 1 };
        assert(t[a] == s[a0] && t[b] == s[b0]);
    }
    assert forall|j: int| 0 <= j < t.len() implies (#[trigger] t[j]).0 != k by {
        let j0 = if j < i { j } else { j + 1 };
        assert(t[j] == s[j0]);
        if j0 != i {
            if j0 < i {
                assert(s[j0].0 != s[i].0);
            } else {
                assert(s[i].0 != s[j0].0);
            }
        }
    }
    assert forall|q: K| q != k implies has_key(t, q) == has_key(s, q) by {
        if has_key(t, q) {
            let j = choose|j: int| 0 <= j < t.len() && (#[trigger] t[j]).0 == q;
            let j0 = if j < i { j } else { j + 1 };
            assert(s[j0].0 == q);
            assert(has_key(s, q));
        }
        if has_key(s, q) {
            let j = choose|j: int| 0 <= j < s.len() && (#[trigger] s[j]).0 == q;
            assert(j != i);
            let j1 = if j < i { j } else { j - 1 };
            assert(t[j1].0 == q);
            assert(has_key(t, q));
        }
    }
    assert forall|q: K| q != k && has_key(s, q) implies value_of(t, q) == value_of(s, q) by {
        let j = choose|j: int| 0 <= j < s.len() && (#[trigger] s[j]).0 == q;
        lemma_key_at(s, q, j);
        assert(j != i);
        let j1 = if j < i { j } else { j - 1 };
        assert(t[j1].0 == q);
        lemma_key_at(t, q, j1);
    }
}

} // verus!
