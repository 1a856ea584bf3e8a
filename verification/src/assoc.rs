//! Association sequences: the mathematical model of the peer maps.
//!
//! A map from peers to addresses is modelled as the sequence of its entries
//! in the order in which their keys were first inserted. Keys are pairwise
//! distinct, so the sequence denotes a finite map; the order is what a walk
//! over the map follows.

use vstd::prelude::*;

verus! {

/// Entries of a peer map: peer bytes and address bytes.
pub type Entries = Seq<(Seq<u8>, Seq<u8>)>;

/// No key occurs twice.
pub open spec fn distinct_keys(s: Entries) -> bool {
    forall|i: int, j: int| 0 <= i < j < s.len() ==> (#[trigger] s[i]).0 != (#[trigger] s[j]).0
}

/// Some entry has the key `k`.
pub open spec fn has_key(s: Entries, k: Seq<u8>) -> bool {
    exists|i: int| 0 <= i < s.len() && (#[trigger] s[i]).0 == k
}

/// Index of an entry with key `k`; meaningful where `has_key(s, k)`.
pub open spec fn position(s: Entries, k: Seq<u8>) -> int {
    choose|i: int| 0 <= i < s.len() && (#[trigger] s[i]).0 == k
}

/// The value stored under `k`; meaningful where `has_key(s, k)`.
pub open spec fn value_of(s: Entries, k: Seq<u8>) -> Seq<u8> {
    s[position(s, k)].1
}

/// The finite map that the entries denote.
pub open spec fn as_map(s: Entries) -> Map<Seq<u8>, Seq<u8>> {
    Map::new(|k: Seq<u8>| has_key(s, k), |k: Seq<u8>| value_of(s, k))
}

/// Stores `v` under `k`: an existing entry keeps its place and gets the new
/// value, a new key goes to the end.
pub open spec fn put(s: Entries, k: Seq<u8>, v: Seq<u8>) -> Entries {
    if has_key(s, k) {
        s.update(position(s, k), (k, v))
    } else {
        s.push((k, v))
    }
}

/// Drops the entry with key `k`, if there is one.
pub open spec fn without(s: Entries, k: Seq<u8>) -> Entries {
    if has_key(s, k) {
        s.remove(position(s, k))
    } else {
        s
    }
}

/// With distinct keys an entry is found at one index only.
pub proof fn lemma_position_unique(s: Entries, k: Seq<u8>, i: int)
    requires
        distinct_keys(s),
        0 <= i < s.len(),
        s[i].0 == k,
    ensures
        has_key(s, k),
        position(s, k) == i,
        value_of(s, k) == s[i].1,
{
    let p = position(s, k);
    assert(0 <= p < s.len() && s[p].0 == k);
    if p < i {
        assert(s[p].0 != s[i].0);
    } else if i < p {
        assert(s[i].0 != s[p].0);
    }
}

/// `put` keeps the keys distinct and acts on the denoted map as `insert`.
pub proof fn lemma_put(s: Entries, k: Seq<u8>, v: Seq<u8>)
    requires
        distinct_keys(s),
    ensures
        distinct_keys(put(s, k, v)),
        as_map(put(s, k, v)) == as_map(s).insert(k, v),
        put(s, k, v).len() == if has_key(s, k) { s.len() } else { s.len() + 1 },
{
    let t = put(s, k, v);
    if has_key(s, k) {
        let p = position(s, k);
        assert(0 <= p < s.len() && s[p].0 == k);
        assert forall|i: int, j: int| 0 <= i < j < t.len() implies (#[trigger] t[i]).0 != (
        #[trigger] t[j]).0 by {
            assert(t[i].0 == s[i].0);
            assert(t[j].0 == s[j].0);
        }
        assert forall|x: Seq<u8>| has_key(t, x) == (x == k || has_key(s, x)) by {
            if has_key(t, x) {
                let i = position(t, x);
                assert(s[i].0 == x);
            }
            if has_key(s, x) {
                let i = position(s, x);
                assert(t[i].0 == x);
            }
            if x == k {
                assert(t[p].0 == x);
            }
        }
        assert forall|x: Seq<u8>| has_key(t, x) implies value_of(t, x) == (if x == k {
            v
        } else {
            value_of(s, x)
        }) by {
            let i = position(t, x);
            assert(0 <= i < t.len() && t[i].0 == x);
            if x == k {
                lemma_position_unique(t, k, p);
            } else {
                assert(s[i].0 == x);
                lemma_position_unique(s, x, i);
                assert(t[i] == s[i]);
            }
        }
    } else {
        assert forall|i: int, j: int| 0 <= i < j < t.len() implies (#[trigger] t[i]).0 != (
        #[trigger] t[j]).0 by {
            if j == s.len() {
                assert(s[i].0 != k);
            } else {
                assert(t[i] == s[i] && t[j] == s[j]);
            }
        }
        assert forall|x: Seq<u8>| has_key(t, x) == (x == k || has_key(s, x)) by {
            if has_key(t, x) {
                let i = position(t, x);
                if i < s.len() {
                    assert(s[i].0 == x);
                }
            }
            if has_key(s, x) {
                let i = position(s, x);
                assert(t[i].0 == x);
            }
            if x == k {
                assert(t[s.len() as int].0 == x);
            }
        }
        assert forall|x: Seq<u8>| has_key(t, x) implies value_of(t, x) == (if x == k {
            v
        } else {
            value_of(s, x)
        }) by {
            let i = position(t, x);
            assert(0 <= i < t.len() && t[i].0 == x);
            if x == k {
                lemma_position_unique(t, k, s.len() as int);
            } else {
                assert(i < s.len());
                assert(s[i].0 == x);
                lemma_position_unique(s, x, i);
                assert(t[i] == s[i]);
            }
        }
    }
    assert(as_map(t) =~= as_map(s).insert(k, v));
}

/// `without` keeps the keys distinct and acts on the denoted map as `remove`.
pub proof fn lemma_without(s: Entries, k: Seq<u8>)
    requires
        distinct_keys(s),
    ensures
        distinct_keys(without(s, k)),
        !has_key(without(s, k), k),
        as_map(without(s, k)) == as_map(s).remove(k),
        without(s, k).len() == if has_key(s, k) { s.len() - 1 } else { s.len() as int },
{
    let t = without(s, k);
    if has_key(s, k) {
        let p = position(s, k);
        assert(0 <= p < s.len() && s[p].0 == k);
        assert forall|i: int| 0 <= i < t.len() implies #[trigger] t[i] == s[if i < p {
            i
        } else {
            i + 1
        }] by {}
        assert forall|i: int, j: int| 0 <= i < j < t.len() implies (#[trigger] t[i]).0 != (
        #[trigger] t[j]).0 by {
            let a = if i < p { i } else { i + 1 };
            let b = if j < p { j } else { j + 1 };
            assert(t[i] == s[a] && t[j] == s[b]);
            assert(s[a].0 != s[b].0);
        }
        assert forall|x: Seq<u8>| has_key(t, x) == (x != k && has_key(s, x)) by {
            if has_key(t, x) {
                let i = position(t, x);
                let a = if i < p { i } else { i + 1 };
                assert(t[i] == s[a]);
                assert(s[a].0 == x);
                if x == k {
                    lemma_position_unique(s, k, a);
                }
            }
            if x != k && has_key(s, x) {
                let a = position(s, x);
                assert(a != p);
                let i = if a < p { a } else { a - 1 };
                assert(t[i] == s[a]);
                assert(t[i].0 == x);
            }
        }
        assert forall|x: Seq<u8>| has_key(t, x) implies value_of(t, x) == value_of(s, x) by {
            let i = position(t, x);
            assert(0 <= i < t.len() && t[i].0 == x);
            let a = if i < p { i } else { i + 1 };
            assert(t[i] == s[a]);
            lemma_position_unique(s, x, a);
        }
    }
    assert(as_map(t) =~= as_map(s).remove(k));
}

/// Entries with distinct keys denote a finite map with one key per entry.
pub proof fn lemma_map_size(s: Entries)
    requires
        distinct_keys(s),
    ensures
        as_map(s).dom().finite(),
        as_map(s).dom().len() == s.len(),
    decreases s.len(),
{
    if s.len() == 0 {
        assert(as_map(s).dom() =~= Set::<Seq<u8>>::empty());
    } else {
        let t = s.drop_last();
        let e = s.last();
        assert forall|i: int, j: int| 0 <= i < j < t.len() implies (#[trigger] t[i]).0 != (
        #[trigger] t[j]).0 by {
            assert(t[i] == s[i] && t[j] == s[j]);
        }
        lemma_map_size(t);
        if has_key(t, e.0) {
            let i = position(t, e.0);
            assert(s[i].0 == t[i].0);
            assert(s[i].0 != s[s.len() - 1].0);
        }
        assert(put(t, e.0, e.1) =~= s);
        lemma_put(t, e.0, e.1);
        assert(as_map(s).dom() =~= as_map(t).dom().insert(e.0));
    }
}

} // verus!
