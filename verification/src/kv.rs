//! Keyed storage kept as an association list.
//!
//! The backend holds its item bytes and its lock records as vectors of
//! `(key, value)` pairs with pairwise-distinct keys, so that the enumeration
//! order of keys is a concrete, stable fact (insertion order) while contracts
//! speak of the represented finite map.

use vstd::prelude::*;

verus! {

/// The keys of an association list, in storage order.
pub open spec fn keys_of<V>(s: Seq<(u64, V)>) -> Seq<u64> {
    s.map_values(|p: (u64, V)| p.0)
}

/// No key occurs twice.
pub open spec fn unique_keys<V>(s: Seq<(u64, V)>) -> bool {
    forall|i: int, j: int| 0 <= i < j < s.len() ==> (#[trigger] s[i]).0 != (#[trigger] s[j]).0
}

/// The index at which key `k` sits (meaningful only where `k` occurs).
pub open spec fn key_index<V>(s: Seq<(u64, V)>, k: u64) -> int {
    choose|i: int| 0 <= i < s.len() && (#[trigger] s[i]).0 == k
}

/// The finite map an association list represents.
pub open spec fn map_of<V>(s: Seq<(u64, V)>) -> Map<u64, V> {
    Map::new(|k: u64| keys_of(s).contains(k), |k: u64| s[key_index(s, k)].1)
}

/// A key is in the represented map exactly where some entry carries it.
pub proof fn lemma_contains<V>(s: Seq<(u64, V)>, k: u64)
    ensures
        map_of(s).contains_key(k) <==> exists|i: int|
            0 <= i < s.len() && (#[trigger] s[i]).0 == k,
{
    if exists|i: int| 0 <= i < s.len() && (#[trigger] s[i]).0 == k {
        let i = choose|i: int| 0 <= i < s.len() && (#[trigger] s[i]).0 == k;
        assert(keys_of(s)[i] == k);
        assert(keys_of(s).contains(k));
    }
    if map_of(s).contains_key(k) {
        let i = choose|i: int| 0 <= i < keys_of(s).len() && keys_of(s)[i] == k;
        assert(s[i].0 == k);
    }
}

/// The entry at a given index decides membership and value of its key.
pub proof fn lemma_key_at<V>(s: Seq<(u64, V)>, i: int)
    requires
        unique_keys(s),
        0 <= i < s.len(),
    ensures
        map_of(s).contains_key(s[i].0),
        map_of(s)[s[i].0] == s[i].1,
        key_index(s, s[i].0) == i,
{
    lemma_contains(s, s[i].0);
    let j = key_index(s, s[i].0);
    assert(0 <= j < s.len() && s[j].0 == s[i].0);
    if i != j {
        assert(false);
    }
}

/// A key carried by no entry is absent from the represented map.
pub proof fn lemma_key_absent<V>(s: Seq<(u64, V)>, k: u64)
    requires
        forall|i: int| 0 <= i < s.len() ==> (#[trigger] s[i]).0 != k,
    ensures
        !map_of(s).contains_key(k),
{
    lemma_contains(s, k);
}

/// Appending a fresh key inserts it into the represented map and appends it
/// to the key order.
pub proof fn lemma_push<V>(s: Seq<(u64, V)>, k: u64, v: V)
    requires
        unique_keys(s),
        !map_of(s).contains_key(k),
    ensures
        unique_keys(s.push((k, v))),
        map_of(s.push((k, v))) == map_of(s).insert(k, v),
        keys_of(s.push((k, v))) == keys_of(s).push(k),
{
    let t = s.push((k, v));
    lemma_contains(s, k);
    assert(unique_keys(t)) by {
        assert(forall|i: int| 0 <= i < s.len() ==> (#[trigger] t[i]) == s[i]);
    }
    assert(keys_of(t) =~= keys_of(s).push(k));
    assert(map_of(t) =~= map_of(s).insert(k, v)) by {
        assert forall|k2: u64| #[trigger] map_of(t).contains_key(k2) implies map_of(
            s,
        ).insert(k, v).contains_key(k2) by {
            lemma_contains(t, k2);
            let i = choose|i: int| 0 <= i < t.len() && (#[trigger] t[i]).0 == k2;
            if i < s.len() {
                lemma_contains(s, k2);
            }
        }
        assert forall|k2: u64| #[trigger] map_of(s).insert(k, v).contains_key(k2) implies map_of(
            t,
        ).contains_key(k2) by {
            lemma_contains(t, k2);
            if k2 == k {
                assert(t[s.len() as int].0 == k2);
            } else {
                lemma_contains(s, k2);
                let i = choose|i: int| 0 <= i < s.len() && (#[trigger] s[i]).0 == k2;
                assert(t[i].0 == k2);
            }
        }
        assert forall|k2: u64| #[trigger] map_of(t).contains_key(k2) implies map_of(t)[k2]
            == map_of(s).insert(k, v)[k2] by {
            lemma_contains(t, k2);
            let i = choose|i: int| 0 <= i < t.len() && (#[trigger] t[i]).0 == k2;
            lemma_key_at(t, i);
            if k2 == k {
                if i < s.len() {
                    assert(map_of(s).contains_key(k2)) by {
                        lemma_contains(s, k2);
                    }
                    assert(false);
                }
            } else {
                assert(i < s.len());
                lemma_key_at(s, i);
            }
        }
    }
}

/// Overwriting the value at an index updates the represented map at that
/// index's key and leaves the key order alone.
pub proof fn lemma_update<V>(s: Seq<(u64, V)>, i: int, v: V)
    requires
        unique_keys(s),
        0 <= i < s.len(),
    ensures
        unique_keys(s.update(i, (s[i].0, v))),
        map_of(s.update(i, (s[i].0, v))) == map_of(s).insert(s[i].0, v),
        keys_of(s.update(i, (s[i].0, v))) == keys_of(s),
{
    let k = s[i].0;
    let t = s.update(i, (k, v));
    assert(keys_of(t) =~= keys_of(s));
    assert(map_of(t) =~= map_of(s).insert(k, v)) by {
        assert forall|k2: u64| #[trigger] map_of(t).contains_key(k2) implies map_of(
            s,
        ).insert(k, v).contains_key(k2) by {
            lemma_contains(t, k2);
            let j = choose|j: int| 0 <= j < t.len() && (#[trigger] t[j]).0 == k2;
            assert(s[j].0 == k2);
            lemma_contains(s, k2);
        }
        assert forall|k2: u64| #[trigger] map_of(s).insert(k, v).contains_key(k2) implies map_of(
            t,
        ).contains_key(k2) by {
            if k2 == k {
                assert(t[i].0 == k2);
            } else {
                lemma_contains(s, k2);
                let j = choose|j: int| 0 <= j < s.len() && (#[trigger] s[j]).0 == k2;
                assert(t[j].0 == k2);
            }
            lemma_contains(t, k2);
        }
        assert forall|k2: u64| #[trigger] map_of(t).contains_key(k2) implies map_of(t)[k2]
            == map_of(s).insert(k, v)[k2] by {
            lemma_contains(t, k2);
            let j = choose|j: int| 0 <= j < t.len() && (#[trigger] t[j]).0 == k2;
            lemma_key_at(t, j);
            if k2 == k {
                lemma_key_at(t, i);
            } else {
                assert(j != i);
                assert(s[j].0 == k2);
                lemma_key_at(s, j);
            }
        }
    }
}

/// Removing the entry at an index removes its key from the represented map.
pub proof fn lemma_remove<V>(s: Seq<(u64, V)>, i: int)
    requires
        unique_keys(s),
        0 <= i < s.len(),
    ensures
        unique_keys(s.remove(i)),
        map_of(s.remove(i)) == map_of(s).remove(s[i].0),
{
    let k = s[i].0;
    let t = s.remove(i);
    assert(forall|j: int| 0 <= j < i ==> (#[trigger] t[j]) == s[j]);
    assert(forall|j: int| i <= j < t.len() ==> (#[trigger] t[j]) == s[j + 1]);
    assert(unique_keys(t)) by {
        assert forall|a: int, b: int| 0 <= a < b < t.len() implies (#[trigger] t[a]).0 != (
        #[trigger] t[b]).0 by {
            let a2 = if a < i { a } else { a + 1 };
            let b2 = if b < i { b } else { b + 1 };
            assert(t[a] == s[a2] && t[b] == s[b2]);
        }
    }
    assert(map_of(t) =~= map_of(s).remove(k)) by {
        assert forall|k2: u64| #[trigger] map_of(t).contains_key(k2) implies map_of(s).remove(
            k,
        ).contains_key(k2) by {
            lemma_contains(t, k2);
            let j = choose|j: int| 0 <= j < t.len() && (#[trigger] t[j]).0 == k2;
            let j2 = if j < i { j } else { j + 1 };
            assert(s[j2].0 == k2);
            lemma_contains(s, k2);
            if k2 == k {
                assert(j2 != i && s[j2].0 == s[i].0);
                assert(false);
            }
        }
        assert forall|k2: u64| #[trigger] map_of(s).remove(k).contains_key(k2) implies map_of(
            t,
        ).contains_key(k2) by {
            lemma_contains(s, k2);
            let j = choose|j: int| 0 <= j < s.len() && (#[trigger] s[j]).0 == k2;
            assert(j != i);
            let j2 = if j < i { j } else { j - 1 };
            assert(t[j2].0 == k2);
            lemma_contains(t, k2);
        }
        assert forall|k2: u64| #[trigger] map_of(t).contains_key(k2) implies map_of(t)[k2]
            == map_of(s).remove(k)[k2] by {
            lemma_contains(t, k2);
            let j = choose|j: int| 0 <= j < t.len() && (#[trigger] t[j]).0 == k2;
            lemma_key_at(t, j);
            let j2 = if j < i { j } else { j + 1 };
            assert(s[j2].0 == k2);
            lemma_key_at(s, j2);
        }
    }
}

/// The empty association list represents the empty map.
pub proof fn lemma_empty<V>()
    ensures
        map_of(Seq::<(u64, V)>::empty()) == Map::<u64, V>::empty(),
{
    assert forall|k: u64| !(#[trigger] map_of(Seq::<(u64, V)>::empty()).contains_key(k)) by {
        lemma_contains(Seq::<(u64, V)>::empty(), k);
    }
    assert(map_of(Seq::<(u64, V)>::empty()) =~= Map::<u64, V>::empty());
}

/// The represented map with every value replaced by its view.
pub open spec fn view_map<T: View>(m: Map<u64, T>) -> Map<u64, T::V> {
    Map::new(|k: u64| m.contains_key(k), |k: u64| m[k]@)
}

/// Inserting commutes with taking views.
pub proof fn lemma_view_insert<T: View>(m: Map<u64, T>, k: u64, v: T)
    ensures
        view_map(m.insert(k, v)) == view_map(m).insert(k, v@),
{
    assert(view_map(m.insert(k, v)) =~= view_map(m).insert(k, v@));
}

/// Removing commutes with taking views.
pub proof fn lemma_view_remove<T: View>(m: Map<u64, T>, k: u64)
    ensures
        view_map(m.remove(k)) == view_map(m).remove(k),
{
    assert(view_map(m.remove(k)) =~= view_map(m).remove(k));
}

/// The empty map of views is the view of the empty map.
pub proof fn lemma_view_empty<T: View>()
    ensures
        view_map(Map::<u64, T>::empty()) == Map::<u64, T::V>::empty(),
{
    assert(view_map(Map::<u64, T>::empty()) =~= Map::<u64, T::V>::empty());
}

/// Finds the index holding key `k`, if any.
pub fn kv_find<V>(s: &Vec<(u64, V)>, k: u64) -> (r: Option<usize>)
    requires
        unique_keys(s@),
    ensures
        match r {
            Some(i) => i < s@.len() && s@[i as int].0 == k && map_of(s@).contains_key(k) && map_of(
                s@,
            )[k] == s@[i as int].1,
            None => !map_of(s@).contains_key(k),
        },
{
    let mut i: usize = 0;
    while i < s.len()
        invariant
            0 <= i <= s@.len(),
            forall|j: int| 0 <= j < i ==> (#[trigger] s@[j]).0 != k,
            unique_keys(s@),
        decreases s@.len() - i,
    {
        if s[i].0 == k {
            proof {
                lemma_key_at(s@, i as int);
            }
            return Some(i);
        }
        i = i + 1;
    }
    proof {
        lemma_key_absent(s@, k);
    }
    None
}

/// Borrows the value under key `k`, if any.
pub fn kv_get<'a, V>(s: &'a Vec<(u64, V)>, k: u64) -> (r: Option<&'a V>)
    requires
        unique_keys(s@),
    ensures
        match r {
            Some(v) => map_of(s@).contains_key(k) && *v == map_of(s@)[k],
            None => !map_of(s@).contains_key(k),
        },
{
    match kv_find(s, k) {
        Some(i) => Some(&s[i].1),
        None => None,
    }
}

/// Binds key `k` to `v`: overwrites in place where the key exists, appends
/// where it is new. The key order gains `k` at the end exactly where it was
/// absent.
pub fn kv_set<V>(s: &mut Vec<(u64, V)>, k: u64, v: V)
    requires
        unique_keys(old(s)@),
    ensures
        unique_keys(final(s)@),
        map_of(final(s)@) == map_of(old(s)@).insert(k, v),
        keys_of(final(s)@) == if map_of(old(s)@).contains_key(k) {
            keys_of(old(s)@)
        } else {
            keys_of(old(s)@).push(k)
        },
{
    match kv_find(s, k) {
        Some(i) => {
            proof {
                lemma_update(s@, i as int, v);
            }
            s.remove(i);
            s.insert(i, (k, v));
            proof {
                assert(s@ =~= old(s)@.update(i as int, (k, v)));
            }
        },
        None => {
            proof {
                lemma_push(s@, k, v);
            }
            s.push((k, v));
        },
    }
}

/// Unbinds key `k`; reports whether it was bound.
pub fn kv_remove<V>(s: &mut Vec<(u64, V)>, k: u64) -> (r: bool)
    requires
        unique_keys(old(s)@),
    ensures
        unique_keys(final(s)@),
        map_of(final(s)@) == map_of(old(s)@).remove(k),
        r == map_of(old(s)@).contains_key(k),
{
    match kv_find(s, k) {
        Some(i) => {
            proof {
                lemma_remove(s@, i as int);
            }
            s.remove(i);
            true
        },
        None => {
            proof {
                assert(map_of(s@) =~= map_of(s@).remove(k));
            }
            false
        },
    }
}

} // verus!
