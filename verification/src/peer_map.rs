//! The map from peers to addresses that backs the connection registry.

use crate::address::Address;
use crate::assoc::{
    as_map, distinct_keys, has_key, lemma_position_unique, lemma_put, lemma_without, position,
    put, without, Entries,
};
use crate::peer::PeerId;
use vstd::prelude::*;

verus! {

/// One entry per peer, in the order in which the peers were first inserted.
///
/// The view is the sequence of entries as byte strings; [`PeerMap::map`] is
/// the finite map they denote. No peer occurs twice.
#[derive(Debug)]
pub struct PeerMap {
    entries: Vec<(PeerId, Address)>,
}

impl View for PeerMap {
    type V = Entries;

    closed spec fn view(&self) -> Entries {
        entries_view(self.entries@)
    }
}

/// The entries as byte strings.
spec fn entries_view(entries: Seq<(PeerId, Address)>) -> Entries {
    Seq::new(entries.len(), |i: int| (entries[i].0@, entries[i].1@))
}

impl PeerMap {
    /// No peer has two entries. This holds of every map.
    #[verifier::type_invariant]
    pub open spec fn well_formed(self) -> bool {
        distinct_keys(self@)
    }

    /// The finite map from peer to address.
    pub open spec fn map(&self) -> Map<Seq<u8>, Seq<u8>> {
        as_map(self@)
    }

    /// An empty map.
    pub fn new() -> (m: PeerMap)
        ensures
            m@ == Seq::<(Seq<u8>, Seq<u8>)>::empty(),
    {
        let m = PeerMap { entries: Vec::new() };
        assert(m@ =~= Seq::<(Seq<u8>, Seq<u8>)>::empty());
        m
    }

    /// Number of peers.
    pub fn len(&self) -> (n: usize)
        ensures
            n == self@.len(),
            distinct_keys(self@),
    {
        proof {
            use_type_invariant(self);
        }
        self.entries.len()
    }

    /// Moves the entries out and leaves the map empty.
    fn take_entries(&mut self) -> (entries: Vec<(PeerId, Address)>)
        ensures
            entries == old(self).entries,
            distinct_keys(entries_view(entries@)),
    {
        proof {
            use_type_invariant(&*self);
        }
        let mut entries: Vec<(PeerId, Address)> = Vec::new();
        core::mem::swap(&mut self.entries, &mut entries);
        entries
    }

    /// Index of the entry of `peer`.
    fn find(&self, peer: &PeerId) -> (found: Option<usize>)
        ensures
            distinct_keys(self@),
            found is Some <==> has_key(self@, peer@),
            found matches Some(i) ==> i == position(self@, peer@) && i < self.entries@.len(),
    {
        proof {
            use_type_invariant(self);
        }
        let mut i: usize = 0;
        while i < self.entries.len()
            invariant
                i <= self.entries@.len(),
                self@.len() == self.entries@.len(),
                distinct_keys(self@),
                forall|j: int| 0 <= j < i ==> (#[trigger] self@[j]).0 != peer@,
            decreases self.entries@.len() - i,
        {
            if self.entries[i].0.same(peer) {
                proof {
                    lemma_position_unique(self@, peer@, i as int);
                }
                return Some(i);
            }
            i += 1;
        }
        None
    }

    /// Whether `peer` has an entry.
    pub fn contains_key(&self, peer: &PeerId) -> (r: bool)
        ensures
            r == has_key(self@, peer@),
            r == self.map().contains_key(peer@),
    {
        self.find(peer).is_some()
    }

    /// The address stored for `peer`.
    pub fn get(&self, peer: &PeerId) -> (address: Option<&Address>)
        ensures
            address is Some <==> self.map().contains_key(peer@),
            address matches Some(a) ==> a@ == self.map()[peer@],
    {
        match self.find(peer) {
            Some(i) => Some(&self.entries[i].1),
            None => None,
        }
    }

    /// The entry at `index` in insertion order.
    pub fn entry(&self, index: usize) -> (e: Option<(&PeerId, &Address)>)
        ensures
            e is Some <==> index < self@.len(),
            e matches Some((peer, address)) ==> self@[index as int] == (peer@, address@),
    {
        if index < self.entries.len() {
            Some((&self.entries[index].0, &self.entries[index].1))
        } else {
            None
        }
    }

    /// Stores `address` for `peer` and returns what was stored before.
    pub fn insert(&mut self, peer: PeerId, address: Address) -> (previous: Option<Address>)
        ensures
            final(self)@ == put(old(self)@, peer@, address@),
            final(self).map() == old(self).map().insert(peer@, address@),
            previous is Some <==> old(self).map().contains_key(peer@),
            previous matches Some(a) ==> a@ == old(self).map()[peer@],
    {
        let ghost before = self@;
        let ghost k = peer@;
        let ghost v = address@;
        let found = self.find(&peer);
        proof {
            lemma_put(before, k, v);
        }
        let mut entries = self.take_entries();
        match found {
            Some(i) => {
                let (_, previous) = entries.remove(i);
                entries.insert(i, (peer, address));
                assert(entries_view(entries@) =~= put(before, k, v));
                self.entries = entries;
                Some(previous)
            },
            None => {
                entries.push((peer, address));
                assert(entries_view(entries@) =~= put(before, k, v));
                self.entries = entries;
                None
            },
        }
    }

    /// Drops the entry of `peer` and returns the address it held.
    pub fn remove(&mut self, peer: &PeerId) -> (previous: Option<Address>)
        ensures
            final(self)@ == without(old(self)@, peer@),
            final(self).map() == old(self).map().remove(peer@),
            previous is Some <==> old(self).map().contains_key(peer@),
            previous matches Some(a) ==> a@ == old(self).map()[peer@],
    {
        let ghost before = self@;
        let found = self.find(peer);
        proof {
            lemma_without(before, peer@);
        }
        match found {
            Some(i) => {
                let mut entries = self.take_entries();
                let (_, previous) = entries.remove(i);
                assert(entries_view(entries@) =~= without(before, peer@));
                self.entries = entries;
                Some(previous)
            },
            None => None,
        }
    }
}

impl Clone for PeerMap {
    fn clone(&self) -> (m: PeerMap)
        ensures
            m@ == self@,
    {
        proof {
            use_type_invariant(self);
        }
        let mut entries: Vec<(PeerId, Address)> = Vec::new();
        let mut i: usize = 0;
        while i < self.entries.len()
            invariant
                i <= self.entries@.len(),
                entries@.len() == i,
                forall|j: int|
                    0 <= j < i ==> (#[trigger] entries@[j]).0@ == self.entries@[j].0@
                        && entries@[j].1@ == self.entries@[j].1@,
            decreases self.entries@.len() - i,
        {
            entries.push((self.entries[i].0.clone(), self.entries[i].1.clone()));
            i += 1;
        }
        assert(entries_view(entries@) =~= self@);
        PeerMap { entries }
    }
}

} // verus!
