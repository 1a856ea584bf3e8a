//! This node's own addresses: the primary address and the candidate pool.

use crate::address::Address;
use crate::distinct::lemma_push_fresh;
use vstd::prelude::*;

verus! {

/// Adds `a` to a pool unless it is there already.
pub open spec fn learn(pool: Seq<Seq<u8>>, a: Seq<u8>) -> Seq<Seq<u8>> {
    if pool.contains(a) {
        pool
    } else {
        pool.push(a)
    }
}

/// Learning an address keeps the pool free of duplicates and inserts the
/// address into the set of candidates.
pub proof fn lemma_learn(pool: Seq<Seq<u8>>, a: Seq<u8>)
    requires
        pool.no_duplicates(),
    ensures
        learn(pool, a).no_duplicates(),
        learn(pool, a).to_set() == pool.to_set().insert(a),
        learn(pool, a).contains(a),
{
    if pool.contains(a) {
        assert(pool.to_set() =~= pool.to_set().insert(a));
    } else {
        lemma_push_fresh(pool, a);
        assert(pool.push(a)[pool.len() as int] == a);
    }
}

/// Addresses learned from peers, in the order in which they were learned.
///
/// The pool only grows. The view is the sequence of address bytes; no
/// address occurs twice.
#[derive(Debug)]
pub struct AddressPool {
    items: Vec<Address>,
}

/// The items as byte strings.
spec fn items_view(items: Seq<Address>) -> Seq<Seq<u8>> {
    Seq::new(items.len(), |i: int| items[i]@)
}

impl View for AddressPool {
    type V = Seq<Seq<u8>>;

    closed spec fn view(&self) -> Seq<Seq<u8>> {
        items_view(self.items@)
    }
}

impl AddressPool {
    /// No address occurs twice. This holds of every pool.
    #[verifier::type_invariant]
    pub open spec fn well_formed(self) -> bool {
        self@.no_duplicates()
    }

    /// The candidates as a set.
    pub open spec fn set(&self) -> Set<Seq<u8>> {
        self@.to_set()
    }

    /// An empty pool.
    pub fn new() -> (pool: AddressPool)
        ensures
            pool@ == Seq::<Seq<u8>>::empty(),
    {
        let pool = AddressPool { items: Vec::new() };
        assert(pool@ =~= Seq::<Seq<u8>>::empty());
        pool
    }

    /// Number of candidates.
    pub fn len(&self) -> (n: usize)
        ensures
            n == self@.len(),
            self@.no_duplicates(),
    {
        proof {
            use_type_invariant(self);
        }
        self.items.len()
    }

    /// The candidate at `index`, in the order of learning.
    pub fn get(&self, index: usize) -> (address: Option<&Address>)
        ensures
            address is Some <==> index < self@.len(),
            address matches Some(a) ==> a@ == self@[index as int],
    {
        if index < self.items.len() {
            Some(&self.items[index])
        } else {
            None
        }
    }

    /// Whether `address` is a candidate.
    pub fn contains(&self, address: &Address) -> (r: bool)
        ensures
            r == self@.contains(address@),
            r == self.set().contains(address@),
    {
        let mut i: usize = 0;
        while i < self.items.len()
            invariant
                i <= self.items@.len(),
                forall|j: int| 0 <= j < i ==> #[trigger] self@[j] != address@,
            decreases self.items@.len() - i,
        {
            if self.items[i].same(address) {
                assert(self@[i as int] == address@);
                return true;
            }
            i += 1;
        }
        false
    }

    /// Adds `address`; returns whether it was new.
    pub fn insert(&mut self, address: Address) -> (fresh: bool)
        ensures
            fresh == !old(self)@.contains(address@),
            final(self)@ == learn(old(self)@, address@),
            final(self).set() == old(self).set().insert(address@),
    {
        proof {
            use_type_invariant(&*self);
            lemma_learn(self@, address@);
        }
        if self.contains(&address) {
            false
        } else {
            let mut items: Vec<Address> = Vec::new();
            core::mem::swap(&mut self.items, &mut items);
            proof {
                assert(items_view(items@.push(address)) =~= items_view(items@).push(address@));
            }
            items.push(address);
            self.items = items;
            true
        }
    }
}

/// The node's addresses as byte strings.
pub struct Addresses {
    /// The current best-known external address.
    pub primary: Option<Seq<u8>>,
    /// The candidate pool, in the order of learning.
    pub candidates: Seq<Seq<u8>>,
}

/// Keeps the primary address and the candidate pool.
#[derive(Debug)]
pub struct AddressTracker {
    primary: Option<Address>,
    candidates: AddressPool,
}

impl View for AddressTracker {
    type V = Addresses;

    closed spec fn view(&self) -> Addresses {
        Addresses {
            primary: match self.primary {
                Some(a) => Some(a@),
                None => None,
            },
            candidates: self.candidates@,
        }
    }
}

impl AddressTracker {
    /// No primary address, no candidates.
    pub fn new() -> (t: AddressTracker)
        ensures
            t@.primary is None,
            t@.candidates == Seq::<Seq<u8>>::empty(),
    {
        AddressTracker { primary: None, candidates: AddressPool::new() }
    }

    /// The primary address.
    pub fn primary(&self) -> (address: Option<&Address>)
        ensures
            address is Some <==> self@.primary is Some,
            address matches Some(a) ==> self@.primary == Some(a@),
    {
        self.primary.as_ref()
    }

    /// The candidate pool.
    pub fn candidates(&self) -> (pool: &AddressPool)
        ensures
            pool@ == self@.candidates,
    {
        &self.candidates
    }

    /// A new listening address replaces the primary address.
    pub fn on_new_listen_address(&mut self, address: Address)
        ensures
            final(self)@.primary == Some(address@),
            final(self)@.candidates == old(self)@.candidates,
    {
        self.primary = Some(address);
    }

    /// A confirmed external address replaces the primary address.
    pub fn on_external_address_confirmed(&mut self, address: Address)
        ensures
            final(self)@.primary == Some(address@),
            final(self)@.candidates == old(self)@.candidates,
    {
        self.primary = Some(address);
    }

    /// An address learned from a peer joins the candidate pool; the primary
    /// address stays. Returns whether the address was new.
    pub fn on_candidate_learned(&mut self, address: Address) -> (fresh: bool)
        ensures
            fresh == !old(self)@.candidates.contains(address@),
            final(self)@.candidates == learn(old(self)@.candidates, address@),
            final(self)@.primary == old(self)@.primary,
    {
        self.candidates.insert(address)
    }
}

} // verus!
