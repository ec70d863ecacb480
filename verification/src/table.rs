//! The recency-ordered table that maps a remote id to the handle of its cache
//! entry. The table itself is `lru::LruCache`; this file states what its
//! methods do and proves what the cache needs from them.

use vstd::prelude::*;
use lru::LruCache;

verus! {

#[verifier::external_type_specification]
#[verifier::external_body]
#[verifier::reject_recursive_types(K)]
#[verifier::reject_recursive_types(V)]
#[verifier::reject_recursive_types(S)]
pub struct ExLruCache<K, V, S>(lru::LruCache<K, V, S>);

#[verifier::external_type_specification]
#[verifier::external_body]
pub struct ExDefaultHasher(lru::DefaultHasher);

/// The pairs held by a table, the most recently used first.
pub uninterp spec fn lru_entries(table: LruCache<i32, u64>) -> Seq<(i32, u64)>;

/// The number of pairs a table was made to hold.
pub uninterp spec fn lru_capacity(table: LruCache<i32, u64>) -> nat;

/// Whether some pair of `s` has the key `k`.
pub open spec fn has_key(s: Seq<(i32, u64)>, k: i32) -> bool {
    exists|i: int| 0 <= i < s.len() && (#[trigger] s[i]).0 == k
}

/// An index at which `s` has the key `k`.
pub open spec fn position(s: Seq<(i32, u64)>, k: i32) -> int {
    choose|i: int| 0 <= i < s.len() && (#[trigger] s[i]).0 == k
}

/// The value that `s` holds under `k`.
pub open spec fn lookup(s: Seq<(i32, u64)>, k: i32) -> Option<u64> {
    if has_key(s, k) {
        Some(s[position(s, k)].1)
    } else {
        None
    }
}

/// Whether no key occurs twice in `s`.
pub open spec fn distinct_keys(s: Seq<(i32, u64)>) -> bool {
    forall|i: int, j: int|
        0 <= i < s.len() && 0 <= j < s.len() && i != j ==> (#[trigger] s[i]).0 != (#[trigger] s[j]).0
}

/// Whether some pair of `s` has the value `v`.
pub open spec fn has_value(s: Seq<(i32, u64)>, v: u64) -> bool {
    exists|i: int| 0 <= i < s.len() && (#[trigger] s[i]).1 == v
}

/// `s` with the pair at `i` moved to the front.
pub open spec fn touched(s: Seq<(i32, u64)>, i: int) -> Seq<(i32, u64)> {
    seq![s[i]] + s.remove(i)
}

/// `LruCache::new` with the capacity `cap`: the table is empty and holds at
/// most `cap` pairs.
#[verifier::external_body]
pub(crate) fn lru_new(cap: usize) -> (table: LruCache<i32, u64>)
    requires
        cap > 0,
    ensures
        lru_entries(table) == Seq::<(i32, u64)>::empty(),
        lru_capacity(table) == cap,
{
    LruCache::new(std::num::NonZeroUsize::new(cap).unwrap())
}

/// `LruCache::peek`: the value under `k`; the order stays as it was.
#[verifier::external_body]
pub(crate) fn lru_peek(table: &LruCache<i32, u64>, k: i32) -> (r: Option<u64>)
    ensures
        match r {
            Some(v) => exists|i: int|
                0 <= i < lru_entries(*table).len() && #[trigger] lru_entries(*table)[i] == (k, v),
            None => !has_key(lru_entries(*table), k),
        },
{
    table.peek(&k).copied()
}

/// `LruCache::get`: the value under `k`, whose pair moves to the front; a
/// table without `k` is left as it was.
#[verifier::external_body]
pub(crate) fn lru_get(table: &mut LruCache<i32, u64>, k: i32) -> (r: Option<u64>)
    ensures
        lru_capacity(*final(table)) == lru_capacity(*old(table)),
        match r {
            Some(v) => exists|i: int|
                0 <= i < lru_entries(*old(table)).len() && #[trigger] lru_entries(*old(table))[i]
                    == (k, v) && lru_entries(*final(table)) == touched(lru_entries(*old(table)), i),
            None => !has_key(lru_entries(*old(table)), k) && lru_entries(*final(table))
                == lru_entries(*old(table)),
        },
{
    table.get(&k).copied()
}

/// `LruCache::push`: the pair `(k, v)` stands at the front afterwards. Where
/// `k` was present its old pair is taken out and returned. Otherwise, where
/// the table is full, the least recently used pair is taken out and returned.
#[verifier::external_body]
pub(crate) fn lru_push(table: &mut LruCache<i32, u64>, k: i32, v: u64) -> (r: Option<(i32, u64)>)
    ensures
        lru_capacity(*final(table)) == lru_capacity(*old(table)),
        has_key(lru_entries(*old(table)), k) ==> exists|i: int|
            0 <= i < lru_entries(*old(table)).len() && (#[trigger] lru_entries(*old(table))[i]).0
                == k && r == Some(lru_entries(*old(table))[i]) && lru_entries(*final(table))
                == seq![(k, v)] + lru_entries(*old(table)).remove(i),
        !has_key(lru_entries(*old(table)), k) && lru_entries(*old(table)).len() == lru_capacity(
            *old(table),
        ) ==> r == Some(lru_entries(*old(table)).last()) && lru_entries(*final(table)) == seq![
            (k, v),
        ] + lru_entries(*old(table)).drop_last(),
        !has_key(lru_entries(*old(table)), k) && lru_entries(*old(table)).len() != lru_capacity(
            *old(table),
        ) ==> r is None && lru_entries(*final(table)) == seq![(k, v)] + lru_entries(*old(table)),
{
    table.push(k, v)
}

/// `LruCache::pop`: the pair under `k` is taken out and its value returned; a
/// table without `k` is left as it was.
#[verifier::external_body]
pub(crate) fn lru_pop(table: &mut LruCache<i32, u64>, k: i32) -> (r: Option<u64>)
    ensures
        lru_capacity(*final(table)) == lru_capacity(*old(table)),
        match r {
            Some(v) => exists|i: int|
                0 <= i < lru_entries(*old(table)).len() && #[trigger] lru_entries(*old(table))[i]
                    == (k, v) && lru_entries(*final(table)) == lru_entries(*old(table)).remove(i),
            None => !has_key(lru_entries(*old(table)), k) && lru_entries(*final(table))
                == lru_entries(*old(table)),
        },
{
    table.pop(&k)
}

/// In a table without repeated keys, the index of a key is the only one.
pub proof fn lemma_position(s: Seq<(i32, u64)>, k: i32, i: int)
    requires
        distinct_keys(s),
        0 <= i < s.len(),
        s[i].0 == k,
    ensures
        has_key(s, k),
        position(s, k) == i,
        lookup(s, k) == Some(s[i].1),
{
    assert(has_key(s, k));
    let p = position(s, k);
    assert(0 <= p < s.len() && s[p].0 == k);
}

/// Moving a pair to the front keeps the pairs and their distinctness.
pub proof fn lemma_touched(s: Seq<(i32, u64)>, i: int)
    requires
        distinct_keys(s),
        0 <= i < s.len(),
    ensures
        distinct_keys(touched(s, i)),
        touched(s, i).len() == s.len(),
        forall|k: i32| has_key(touched(s, i), k) == has_key(s, k),
        forall|k: i32| lookup(touched(s, i), k) == lookup(s, k),
        forall|v: u64| has_value(touched(s, i), v) == has_value(s, v),
{
    let t = touched(s, i);
    // where each pair of `t` comes from
    assert forall|j: int| 0 <= j < t.len() implies #[trigger] t[j] == s[origin(i, j)] && 0
        <= origin(i, j) < s.len() by {}
    assert forall|j: int| 0 <= j < s.len() implies #[trigger] s[j] == t[target(i, j)] && 0
        <= target(i, j) < t.len() by {}
    assert forall|a: int, b: int| 0 <= a < t.len() && 0 <= b < t.len() && a != b implies (
    #[trigger] t[a]).0 != (#[trigger] t[b]).0 by {
        assert(t[a] == s[origin(i, a)]);
        assert(t[b] == s[origin(i, b)]);
    }
    assert forall|k: i32| has_key(t, k) == has_key(s, k) by {
        if has_key(t, k) {
            let j = position(t, k);
            assert(s[origin(i, j)].0 == k);
        }
        if has_key(s, k) {
            let j = position(s, k);
            assert(t[target(i, j)].0 == k);
        }
    }
    assert forall|k: i32| lookup(t, k) == lookup(s, k) by {
        if has_key(s, k) {
            let j = position(s, k);
            assert(t[target(i, j)] == s[j]);
            lemma_position(t, k, target(i, j));
        }
    }
    assert forall|v: u64| has_value(t, v) == has_value(s, v) by {
        if has_value(t, v) {
            let j = choose|j: int| 0 <= j < t.len() && (#[trigger] t[j]).1 == v;
            assert(s[origin(i, j)].1 == v);
        }
        if has_value(s, v) {
            let j = choose|j: int| 0 <= j < s.len() && (#[trigger] s[j]).1 == v;
            assert(t[target(i, j)].1 == v);
        }
    }
}

/// The index in `s` of the pair that stands at `j` once the pair at `i` was
/// moved to the front.
pub open spec fn origin(i: int, j: int) -> int {
    if j == 0 {
        i
    } else if j <= i {
        j - 1
    } else {
        j
    }
}

/// The index at which the pair at `j` stands once the pair at `i` was moved
/// to the front.
pub open spec fn target(i: int, j: int) -> int {
    if j == i {
        0
    } else if j < i {
        j + 1
    } else {
        j
    }
}

/// Taking a pair out keeps the other pairs and their distinctness.
pub proof fn lemma_removed(s: Seq<(i32, u64)>, i: int)
    requires
        distinct_keys(s),
        0 <= i < s.len(),
    ensures
        distinct_keys(s.remove(i)),
        !has_key(s.remove(i), s[i].0),
        forall|k: i32| k != s[i].0 ==> lookup(s.remove(i), k) == lookup(s, k),
        forall|k: i32| k != s[i].0 ==> has_key(s.remove(i), k) == has_key(s, k),
        forall|v: u64| has_value(s.remove(i), v) ==> has_value(s, v),
        forall|v: u64| v != s[i].1 && has_value(s, v) ==> has_value(s.remove(i), v),
{
    let t = s.remove(i);
    assert forall|j: int| 0 <= j < t.len() implies #[trigger] t[j] == s[skip(i, j)] by {}
    assert forall|a: int, b: int| 0 <= a < t.len() && 0 <= b < t.len() && a != b implies (
    #[trigger] t[a]).0 != (#[trigger] t[b]).0 by {
        assert(t[a] == s[skip(i, a)]);
        assert(t[b] == s[skip(i, b)]);
    }
    if has_key(t, s[i].0) {
        let j = position(t, s[i].0);
        assert(t[j] == s[skip(i, j)]);
    }
    assert forall|k: i32| k != s[i].0 implies has_key(t, k) == has_key(s, k) by {
        if has_key(t, k) {
            let j = position(t, k);
            assert(s[skip(i, j)].0 == k);
        }
        if has_key(s, k) {
            let j = position(s, k);
            assert(t[unskip(i, j)] == s[j]);
        }
    }
    assert forall|k: i32| k != s[i].0 implies lookup(t, k) == lookup(s, k) by {
        if has_key(s, k) {
            let j = position(s, k);
            assert(t[unskip(i, j)] == s[j]);
            lemma_position(t, k, unskip(i, j));
        }
    }
    assert forall|v: u64| has_value(t, v) implies has_value(s, v) by {
        let j = choose|j: int| 0 <= j < t.len() && (#[trigger] t[j]).1 == v;
        assert(s[skip(i, j)].1 == v);
    }
    assert forall|v: u64| v != s[i].1 && has_value(s, v) implies has_value(t, v) by {
        let j = choose|j: int| 0 <= j < s.len() && (#[trigger] s[j]).1 == v;
        assert(t[unskip(i, j)].1 == v);
    }
}

/// The index in `s` of the pair that stands at `j` once the pair at `i` was
/// taken out.
pub open spec fn skip(i: int, j: int) -> int {
    if j < i {
        j
    } else {
        j + 1
    }
}

/// The index at which the pair at `j` stands once the pair at `i` was taken
/// out.
pub open spec fn unskip(i: int, j: int) -> int {
    if j < i {
        j
    } else {
        j - 1
    }
}

/// A pair with a new key put in front keeps the others and the distinctness.
pub proof fn lemma_fronted(s: Seq<(i32, u64)>, k: i32, v: u64)
    requires
        distinct_keys(s),
        !has_key(s, k),
    ensures
        distinct_keys(seq![(k, v)] + s),
        lookup(seq![(k, v)] + s, k) == Some(v),
        has_key(seq![(k, v)] + s, k),
        forall|o: i32| o != k ==> lookup(seq![(k, v)] + s, o) == lookup(s, o),
        forall|o: i32| o != k ==> has_key(seq![(k, v)] + s, o) == has_key(s, o),
        forall|w: u64| has_value(seq![(k, v)] + s, w) == (w == v || has_value(s, w)),
{
    let t = seq![(k, v)] + s;
    assert(t[0] == (k, v));
    assert forall|j: int| 1 <= j < t.len() implies #[trigger] t[j] == s[j - 1] by {}
    assert forall|a: int, b: int| 0 <= a < t.len() && 0 <= b < t.len() && a != b implies (
    #[trigger] t[a]).0 != (#[trigger] t[b]).0 by {
        if a > 0 {
            assert(t[a] == s[a - 1]);
        }
        if b > 0 {
            assert(t[b] == s[b - 1]);
        }
    }
    lemma_position(t, k, 0);
    assert forall|o: i32| o != k implies has_key(t, o) == has_key(s, o) by {
        if has_key(t, o) {
            let j = position(t, o);
            assert(s[j - 1].0 == o);
        }
        if has_key(s, o) {
            let j = position(s, o);
            assert(t[j + 1] == s[j]);
        }
    }
    assert forall|o: i32| o != k implies lookup(t, o) == lookup(s, o) by {
        if has_key(s, o) {
            let j = position(s, o);
            assert(t[j + 1] == s[j]);
            lemma_position(t, o, j + 1);
        }
    }
    assert forall|w: u64| has_value(t, w) == (w == v || has_value(s, w)) by {
        if has_value(t, w) {
            let j = choose|j: int| 0 <= j < t.len() && (#[trigger] t[j]).1 == w;
            if j > 0 {
                assert(s[j - 1].1 == w);
            }
        }
        if has_value(s, w) {
            let j = choose|j: int| 0 <= j < s.len() && (#[trigger] s[j]).1 == w;
            assert(t[j + 1].1 == w);
        }
        if w == v {
            assert(t[0].1 == w);
        }
    }
}

} // verus!
