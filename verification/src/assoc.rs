//! Association lists: sequences of key/value pairs in which no key occurs
//! twice. The stake table and each owner's credit table are kept this way.
use vstd::prelude::*;

verus! {

/// No key occurs twice.
pub open spec fn keys_distinct<K, V>(s: Seq<(K, V)>) -> bool {
    forall|i: int, j: int| 0 <= i < s.len() && 0 <= j < s.len() && i != j ==> s[i].0 != s[j].0
}

/// Whether the key occurs.
pub open spec fn has_key<K, V>(s: Seq<(K, V)>, k: K) -> bool {
    exists|i: int| 0 <= i < s.len() && s[i].0 == k
}

/// The position of the key, or -1 where it does not occur.
pub open spec fn key_index<K, V>(s: Seq<(K, V)>, k: K) -> int {
    if has_key(s, k) {
        choose|i: int| 0 <= i < s.len() && s[i].0 == k
    } else {
        -1
    }
}

/// The value stored under a key; meaningful where the key occurs.
pub open spec fn value_of<K, V>(s: Seq<(K, V)>, k: K) -> V {
    s[key_index(s, k)].1
}

/// The list with the value under `k` replaced, or the pair appended where `k`
/// does not occur.
pub open spec fn put<K, V>(s: Seq<(K, V)>, k: K, v: V) -> Seq<(K, V)> {
    if has_key(s, k) {
        s.update(key_index(s, k), (k, v))
    } else {
        s.push((k, v))
    }
}

/// The value under `k`, or `default` where it does not occur.
pub open spec fn get_or<K, V>(s: Seq<(K, V)>, k: K, default: V) -> V {
    if has_key(s, k) {
        value_of(s, k)
    } else {
        default
    }
}

/// In a list without repeated keys, the position of a key is the one position
/// that holds it.
pub proof fn lemma_key_index_unique<K, V>(s: Seq<(K, V)>, k: K, i: int)
    requires
        keys_distinct(s),
        0 <= i < s.len(),
        s[i].0 == k,
    ensures
        has_key(s, k),
        key_index(s, k) == i,
{
    let j = choose|j: int| 0 <= j < s.len() && s[j].0 == k;
    assert(s[j].0 == k);
}

/// `put` keeps keys distinct, and afterwards the key holds the new value.
pub proof fn lemma_put<K, V>(s: Seq<(K, V)>, k: K, v: V)
    requires
        keys_distinct(s),
    ensures
        keys_distinct(put(s, k, v)),
        has_key(put(s, k, v), k),
        value_of(put(s, k, v), k) == v,
        forall|k2: K| k2 != k ==> (has_key(put(s, k, v), k2) == has_key(s, k2)),
        forall|k2: K| k2 != k && has_key(s, k2) ==> value_of(put(s, k, v), k2) == value_of(s, k2),
        has_key(s, k) ==> put(s, k, v).len() == s.len(),
        !has_key(s, k) ==> put(s, k, v).len() == s.len() + 1,
{
    let t = put(s, k, v);
    if has_key(s, k) {
        let i = key_index(s, k);
        assert(t[i].0 == k);
        lemma_key_index_unique(t, k, i);
        assert forall|k2: K| k2 != k implies has_key(t, k2) == has_key(s, k2) by {
            if has_key(s, k2) {
                let j = choose|j: int| 0 <= j < s.len() && s[j].0 == k2;
                assert(t[j].0 == k2);
            }
            if has_key(t, k2) {
                let j = choose|j: int| 0 <= j < t.len() && t[j].0 == k2;
                assert(s[j].0 == k2);
            }
        }
        assert forall|k2: K| k2 != k && has_key(s, k2) implies value_of(t, k2) == value_of(
            s,
            k2,
        ) by {
            let j = key_index(s, k2);
            lemma_key_index_unique(s, k2, j);
            assert(t[j] == s[j]);
            lemma_key_index_unique(t, k2, j);
        }
    } else {
        let i = s.len() as int;
        assert(t[i].0 == k);
        assert(keys_distinct(t)) by {
            assert forall|a: int, b: int|
                0 <= a < t.len() && 0 <= b < t.len() && a != b implies t[a].0 != t[b].0 by {
                if a < s.len() && b < s.len() {
                    assert(t[a] == s[a] && t[b] == s[b]);
                } else if a < s.len() {
                    assert(t[a] == s[a]);
                } else {
                    assert(t[b] == s[b]);
                }
            }
        }
        lemma_key_index_unique(t, k, i);
        assert forall|k2: K| k2 != k implies has_key(t, k2) == has_key(s, k2) by {
            if has_key(s, k2) {
                let j = choose|j: int| 0 <= j < s.len() && s[j].0 == k2;
                assert(t[j].0 == k2);
            }
            if has_key(t, k2) {
                let j = choose|j: int| 0 <= j < t.len() && t[j].0 == k2;
                assert(s[j].0 == k2);
            }
        }
        assert forall|k2: K| k2 != k && has_key(s, k2) implies value_of(t, k2) == value_of(
            s,
            k2,
        ) by {
            let j = key_index(s, k2);
            lemma_key_index_unique(s, k2, j);
            assert(t[j] == s[j]);
            lemma_key_index_unique(t, k2, j);
        }
    }
}

/// A second `put` under the same key overrides the first, and is an update
/// at the key's position.
pub proof fn lemma_put_put<K, V>(s: Seq<(K, V)>, k: K, x: V, y: V)
    requires
        keys_distinct(s),
    ensures
        put(put(s, k, x), k, y) == put(s, k, y),
        put(put(s, k, x), k, y) == put(s, k, x).update(key_index(put(s, k, x), k), (k, y)),
{
    lemma_put(s, k, x);
    let t = put(s, k, x);
    if has_key(s, k) {
        let i = key_index(s, k);
        lemma_key_index_unique(s, k, i);
        lemma_key_index_unique(t, k, i);
        assert(put(t, k, y) =~= put(s, k, y));
    } else {
        let i = s.len() as int;
        assert(t[i].0 == k);
        lemma_key_index_unique(t, k, i);
        assert(put(t, k, y) =~= put(s, k, y));
    }
}

/// Putting back the value that a key holds changes nothing.
pub proof fn lemma_put_same<K, V>(s: Seq<(K, V)>, k: K)
    requires
        keys_distinct(s),
        has_key(s, k),
    ensures
        put(s, k, value_of(s, k)) == s,
{
    let i = key_index(s, k);
    lemma_key_index_unique(s, k, i);
    assert(put(s, k, value_of(s, k)) =~= s);
}

/// Sum of the values of a list of `u64` amounts.
pub open spec fn sum_values<K>(s: Seq<(K, u64)>) -> int
    decreases s.len(),
{
    if s.len() == 0 {
        0
    } else {
        sum_values(s.drop_last()) + s.last().1
    }
}

/// The sum is not negative, and bounds every value.
pub proof fn lemma_sum_values_bounds<K>(s: Seq<(K, u64)>)
    ensures
        sum_values(s) >= 0,
        forall|i: int| 0 <= i < s.len() ==> s[i].1 <= sum_values(s),
    decreases s.len(),
{
    if s.len() > 0 {
        lemma_sum_values_bounds(s.drop_last());
        assert forall|i: int| 0 <= i < s.len() implies s[i].1 <= sum_values(s) by {
            if i < s.len() - 1 {
                assert(s.drop_last()[i] == s[i]);
            }
        }
    }
}

/// Replacing one value changes the sum by the difference.
pub proof fn lemma_sum_values_update<K>(s: Seq<(K, u64)>, i: int, k: K, v: u64)
    requires
        0 <= i < s.len(),
    ensures
        sum_values(s.update(i, (k, v))) == sum_values(s) - s[i].1 + v,
    decreases s.len(),
{
    let t = s.update(i, (k, v));
    if i == s.len() - 1 {
        assert(t.drop_last() =~= s.drop_last());
    } else {
        lemma_sum_values_update(s.drop_last(), i, k, v);
        assert(t.drop_last() =~= s.drop_last().update(i, (k, v)));
    }
}

/// Appending a value adds it to the sum.
pub proof fn lemma_sum_values_push<K>(s: Seq<(K, u64)>, k: K, v: u64)
    ensures
        sum_values(s.push((k, v))) == sum_values(s) + v,
{
    assert(s.push((k, v)).drop_last() =~= s);
}

/// The sum after `put`.
pub proof fn lemma_sum_values_put<K>(s: Seq<(K, u64)>, k: K, v: u64)
    ensures
        sum_values(put(s, k, v)) == sum_values(s) - get_or(s, k, 0u64) + v,
{
    if has_key(s, k) {
        lemma_sum_values_update(s, key_index(s, k), k, v);
    } else {
        lemma_sum_values_push(s, k, v);
    }
}

} // verus!
