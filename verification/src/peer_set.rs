//! The set of peers that discovery has announced and not yet withdrawn.

use crate::distinct::{lemma_push_fresh, lemma_remove_at, lemma_set_size};
use crate::peer::PeerId;
use vstd::prelude::*;

verus! {

/// A finite set of peers. The view is the set of their byte strings.
#[derive(Debug)]
pub struct PeerSet {
    items: Vec<PeerId>,
}

/// The items as byte strings.
spec fn items_view(items: Seq<PeerId>) -> Seq<Seq<u8>> {
    Seq::new(items.len(), |i: int| items[i]@)
}

impl View for PeerSet {
    type V = Set<Seq<u8>>;

    closed spec fn view(&self) -> Set<Seq<u8>> {
        items_view(self.items@).to_set()
    }
}

impl PeerSet {
    /// No peer is held twice. This holds of every set.
    #[verifier::type_invariant]
    pub closed spec fn well_formed(self) -> bool {
        items_view(self.items@).no_duplicates()
    }

    /// A well-formed set is finite.
    pub proof fn lemma_finite(self)
        requires
            self.well_formed(),
        ensures
            self@.finite(),
    {
        lemma_set_size(items_view(self.items@));
    }

    /// The empty set.
    pub fn new() -> (s: PeerSet)
        ensures
            s@ == Set::<Seq<u8>>::empty(),
    {
        let s = PeerSet { items: Vec::new() };
        assert(s@ =~= Set::<Seq<u8>>::empty());
        s
    }

    /// Number of peers in the set.
    pub fn len(&self) -> (n: usize)
        ensures
            self@.finite(),
            n == self@.len(),
    {
        proof {
            use_type_invariant(self);
            lemma_set_size(items_view(self.items@));
        }
        self.items.len()
    }

    /// Moves the items out and leaves the set empty.
    fn take_items(&mut self) -> (items: Vec<PeerId>)
        ensures
            items == old(self).items,
            items_view(items@).no_duplicates(),
    {
        proof {
            use_type_invariant(&*self);
        }
        let mut items: Vec<PeerId> = Vec::new();
        core::mem::swap(&mut self.items, &mut items);
        items
    }

    /// Index of `peer` among the items.
    fn find(&self, peer: &PeerId) -> (found: Option<usize>)
        ensures
            found is Some <==> self@.contains(peer@),
            found matches Some(i) ==> i < self.items@.len() && self.items@[i as int]@ == peer@,
    {
        let mut i: usize = 0;
        while i < self.items.len()
            invariant
                i <= self.items@.len(),
                forall|j: int| 0 <= j < i ==> #[trigger] items_view(self.items@)[j] != peer@,
            decreases self.items@.len() - i,
        {
            if self.items[i].same(peer) {
                assert(items_view(self.items@)[i as int] == peer@);
                return Some(i);
            }
            i += 1;
        }
        None
    }

    /// Whether `peer` is in the set.
    pub fn contains(&self, peer: &PeerId) -> (r: bool)
        ensures
            r == self@.contains(peer@),
    {
        self.find(peer).is_some()
    }

    /// Adds `peer`; returns whether it was absent before.
    pub fn insert(&mut self, peer: PeerId) -> (fresh: bool)
        ensures
            fresh == !old(self)@.contains(peer@),
            final(self)@ == old(self)@.insert(peer@),
    {
        if self.find(&peer).is_some() {
            assert(self@ =~= self@.insert(peer@));
            false
        } else {
            let mut items = self.take_items();
            proof {
                lemma_push_fresh(items_view(items@), peer@);
                assert(items_view(items@.push(peer)) =~= items_view(items@).push(peer@));
            }
            items.push(peer);
            self.items = items;
            true
        }
    }

    /// Removes `peer`; returns whether it was present.
    pub fn remove(&mut self, peer: &PeerId) -> (present: bool)
        ensures
            present == old(self)@.contains(peer@),
            final(self)@ == old(self)@.remove(peer@),
    {
        match self.find(peer) {
            Some(i) => {
                let mut items = self.take_items();
                proof {
                    lemma_remove_at(items_view(items@), i as int);
                    assert(items_view(items@.remove(i as int)) =~= items_view(items@).remove(
                        i as int,
                    ));
                }
                items.remove(i);
                self.items = items;
                true
            },
            None => {
                assert(self@ =~= self@.remove(peer@));
                false
            },
        }
    }
}

} // verus!
