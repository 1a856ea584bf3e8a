//! Sequences without duplicates, read as finite sets.

use vstd::prelude::*;

verus! {

/// Appending a new element keeps the sequence free of duplicates and inserts
/// the element into the set.
pub proof fn lemma_push_fresh(s: Seq<Seq<u8>>, x: Seq<u8>)
    requires
        s.no_duplicates(),
        !s.to_set().contains(x),
    ensures
        s.push(x).no_duplicates(),
        s.push(x).to_set() == s.to_set().insert(x),
{
    let t = s.push(x);
    assert forall|i: int, j: int| 0 <= i < t.len() && 0 <= j < t.len() && i != j implies t[i]
        != t[j] by {
        if i == s.len() {
            assert(s.contains(s[j]));
        } else if j == s.len() {
            assert(s.contains(s[i]));
        }
    }
    assert forall|y: Seq<u8>| t.to_set().contains(y) == s.to_set().insert(x).contains(y) by {
        if t.contains(y) {
            let i = choose|i: int| 0 <= i < t.len() && t[i] == y;
            if i < s.len() {
                assert(s[i] == y);
            }
        }
        if s.contains(y) {
            let i = choose|i: int| 0 <= i < s.len() && s[i] == y;
            assert(t[i] == y);
        }
        if y == x {
            assert(t[s.len() as int] == y);
        }
    }
    assert(t.to_set() =~= s.to_set().insert(x));
}

/// Removing the element at `i` keeps the sequence free of duplicates and
/// removes that element from the set.
pub proof fn lemma_remove_at(s: Seq<Seq<u8>>, i: int)
    requires
        s.no_duplicates(),
        0 <= i < s.len(),
    ensures
        s.remove(i).no_duplicates(),
        s.remove(i).to_set() == s.to_set().remove(s[i]),
{
    let t = s.remove(i);
    assert forall|a: int, b: int| 0 <= a < t.len() && 0 <= b < t.len() && a != b implies t[a]
        != t[b] by {
        let a2 = if a < i { a } else { a + 1 };
        let b2 = if b < i { b } else { b + 1 };
        assert(t[a] == s[a2] && t[b] == s[b2]);
    }
    assert forall|y: Seq<u8>| t.to_set().contains(y) == s.to_set().remove(s[i]).contains(y) by {
        if t.contains(y) {
            let a = choose|a: int| 0 <= a < t.len() && t[a] == y;
            let a2 = if a < i { a } else { a + 1 };
            assert(t[a] == s[a2]);
            assert(s.contains(y));
        }
        if s.contains(y) && y != s[i] {
            let a2 = choose|a: int| 0 <= a < s.len() && s[a] == y;
            let a = if a2 < i { a2 } else { a2 - 1 };
            assert(t[a] == y);
        }
    }
    assert(t.to_set() =~= s.to_set().remove(s[i]));
}

/// A sequence without duplicates has as many elements as its set.
pub proof fn lemma_set_size(s: Seq<Seq<u8>>)
    requires
        s.no_duplicates(),
    ensures
        s.to_set().finite(),
        s.to_set().len() == s.len(),
{
    s.unique_seq_to_set();
}

} // verus!
