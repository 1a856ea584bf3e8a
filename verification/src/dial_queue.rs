//! The queue of dial requests: first in, first out, unbounded.

use crate::address::Address;
use crate::peer::PeerId;
use std::collections::VecDeque;
use vstd::prelude::*;

verus! {

/// Dial requests that await an attempt, oldest first.
///
/// The view is the sequence of requests, each as the bytes of the peer and
/// of the address to dial.
#[derive(Debug)]
pub struct DialQueue {
    items: VecDeque<(PeerId, Address)>,
}

/// The requests as byte strings.
spec fn requests_view(items: Seq<(PeerId, Address)>) -> Seq<(Seq<u8>, Seq<u8>)> {
    Seq::new(items.len(), |i: int| (items[i].0@, items[i].1@))
}

impl View for DialQueue {
    type V = Seq<(Seq<u8>, Seq<u8>)>;

    closed spec fn view(&self) -> Seq<(Seq<u8>, Seq<u8>)> {
        requests_view(self.items@)
    }
}

impl DialQueue {
    /// An empty queue.
    pub fn new() -> (q: DialQueue)
        ensures
            q@ == Seq::<(Seq<u8>, Seq<u8>)>::empty(),
    {
        let q = DialQueue { items: VecDeque::new() };
        assert(q@ =~= Seq::<(Seq<u8>, Seq<u8>)>::empty());
        q
    }

    /// Number of waiting requests.
    pub fn len(&self) -> (n: usize)
        ensures
            n == self@.len(),
    {
        self.items.len()
    }

    /// Whether no request waits.
    pub fn is_empty(&self) -> (r: bool)
        ensures
            r == (self@.len() == 0),
    {
        self.items.len() == 0
    }

    /// Appends a request to dial `peer` at `address`.
    pub fn push(&mut self, peer: PeerId, address: Address)
        ensures
            final(self)@ == old(self)@.push((peer@, address@)),
    {
        self.items.push_back((peer, address));
        assert(self@ =~= old(self)@.push((peer@, address@)));
    }

    /// Takes the oldest request.
    pub fn pop(&mut self) -> (request: Option<(PeerId, Address)>)
        ensures
            request is Some <==> old(self)@.len() > 0,
            request matches Some((peer, address)) ==> (peer@, address@) == old(self)@[0],
            final(self)@ == (if old(self)@.len() > 0 {
                old(self)@.drop_first()
            } else {
                old(self)@
            }),
    {
        let request = self.items.pop_front();
        assert(old(self)@.len() > 0 ==> self@ =~= old(self)@.drop_first());
        assert(old(self)@.len() == 0 ==> self@ =~= old(self)@);
        request
    }
}

} // verus!
