//! The node: one state record and one handler per kind of event.
//!
//! The surrounding program owns the network. It turns what happens there
//! into an [`Event`], hands it to the [`Node`], and performs the returned
//! [`Action`]s. The node never blocks and never fails.

use crate::address::Address;
use crate::dial_queue::DialQueue;
use crate::model::{
    closed, dial_actions, dial_taken, discovered, established, expired, expired_actions,
    greeting_for, greeting_text, identified_actions, primary_set,
    responder_actions, response_actions, response_received, run, step, tick_actions, ActionView,
    Direction, DisconnectReason, EventView, NodeState, GREETING_PREFIX, GREETING_SUFFIX,
};
use crate::peer::PeerId;
use crate::peer_map::PeerMap;
use crate::peer_set::PeerSet;
use crate::protocol::{GreetRequest, GreetResponse, Greeting, PROTOCOL};
use crate::service::{outcome_view, Responder, ServiceError};
use crate::tracker::{lemma_learn, AddressTracker};
use vstd::prelude::*;
use vstd::std_specs::cmp::PartialEqSpecImpl;
use vstd::string::StringExecFns;

verus! {

/// Something that happened outside the node.
#[derive(Debug)]
pub enum Event {
    /// The greeting interval has passed.
    Tick,
    /// The consumer of the dial queue is ready for one request.
    DialReady,
    /// Discovery found `peer` at `address`.
    Discovered { peer: PeerId, address: Address },
    /// The discovery record of `peer` has expired.
    Expired { peer: PeerId },
    /// A connection with `peer` is open.
    ConnectionEstablished { peer: PeerId, address: Address, direction: Direction },
    /// The connection with `peer` is closed.
    ConnectionClosed { peer: PeerId },
    /// `peer` advertised `protocol` in its handshake.
    Identified { peer: PeerId, protocol: String },
    /// `peer` sent a greeting.
    RequestReceived { peer: PeerId, request: GreetRequest },
    /// The responder has finished with the greeting handed to it last.
    ResponderFinished { outcome: Result<GreetResponse, ServiceError> },
    /// `peer` answered a greeting of this node.
    ResponseReceived { peer: PeerId, response: GreetResponse },
    /// This node listens on a new address.
    NewListenAddress { address: Address },
    /// An external address of this node was confirmed.
    ExternalAddressConfirmed { address: Address },
}

/// Something the node asks the surrounding program to do.
#[derive(Debug)]
pub enum Action {
    /// Send the greeting `request` to `peer`.
    SendRequest { peer: PeerId, request: GreetRequest },
    /// Send `response` back on the channel of the greeting being handled.
    SendResponse { response: GreetResponse },
    /// Hand `request` to the responder and report back when it has finished,
    /// before any other event is taken.
    InvokeResponder { request: GreetRequest },
    /// Dial `peer` at `address`, unless the connection layer is connected to
    /// it or dialing it already.
    Dial { peer: PeerId, address: Address },
    /// Close the connection with `peer`.
    Disconnect { peer: PeerId, reason: DisconnectReason },
    /// Show the text that `peer` answered with.
    Report { peer: PeerId, message: String },
    /// Record `address` as an external address of this node.
    AddExternalAddress { address: Address },
}

impl View for Event {
    type V = EventView;

    open spec fn view(&self) -> EventView {
        match self {
            Event::Tick => EventView::Tick,
            Event::DialReady => EventView::DialReady,
            Event::Discovered { peer, address } => EventView::Discovered {
                peer: peer@,
                address: address@,
            },
            Event::Expired { peer } => EventView::Expired { peer: peer@ },
            Event::ConnectionEstablished { peer, address, direction } => {
                EventView::ConnectionEstablished {
                    peer: peer@,
                    address: address@,
                    direction: *direction,
                }
            },
            Event::ConnectionClosed { peer } => EventView::ConnectionClosed { peer: peer@ },
            Event::Identified { peer, protocol } => EventView::Identified {
                peer: peer@,
                protocol: protocol@,
            },
            Event::RequestReceived { peer, request } => EventView::RequestReceived {
                peer: peer@,
                request: request@,
            },
            Event::ResponderFinished { outcome } => EventView::ResponderFinished {
                outcome: outcome_view(*outcome),
            },
            Event::ResponseReceived { peer, response } => EventView::ResponseReceived {
                peer: peer@,
                response: response@,
            },
            Event::NewListenAddress { address } => EventView::NewListenAddress {
                address: address@,
            },
            Event::ExternalAddressConfirmed { address } => EventView::ExternalAddressConfirmed {
                address: address@,
            },
        }
    }
}

impl View for Action {
    type V = ActionView;

    open spec fn view(&self) -> ActionView {
        match self {
            Action::SendRequest { peer, request } => ActionView::SendRequest {
                peer: peer@,
                request: request@,
            },
            Action::SendResponse { response } => ActionView::SendResponse { response: response@ },
            Action::InvokeResponder { request } => ActionView::InvokeResponder {
                request: request@,
            },
            Action::Dial { peer, address } => ActionView::Dial { peer: peer@, address: address@ },
            Action::Disconnect { peer, reason } => ActionView::Disconnect {
                peer: peer@,
                reason: *reason,
            },
            Action::Report { peer, message } => ActionView::Report {
                peer: peer@,
                message: message@,
            },
            Action::AddExternalAddress { address } => ActionView::AddExternalAddress {
                address: address@,
            },
        }
    }
}

impl PartialEq for Action {
    fn eq(&self, other: &Action) -> (r: bool) {
        match (self, other) {
            (
                Action::SendRequest { peer: p1, request: r1 },
                Action::SendRequest { peer: p2, request: r2 },
            ) => p1.same(p2) && *r1 == *r2,
            (Action::SendResponse { response: r1 }, Action::SendResponse { response: r2 }) => *r1
                == *r2,
            (Action::InvokeResponder { request: r1 }, Action::InvokeResponder { request: r2 }) => {
                *r1 == *r2
            },
            (Action::Dial { peer: p1, address: a1 }, Action::Dial { peer: p2, address: a2 }) => {
                p1.same(p2) && a1.same(a2)
            },
            (
                Action::Disconnect { peer: p1, reason: r1 },
                Action::Disconnect { peer: p2, reason: r2 },
            ) => p1.same(p2) && *r1 == *r2,
            (
                Action::Report { peer: p1, message: m1 },
                Action::Report { peer: p2, message: m2 },
            ) => p1.same(p2) && *m1 == *m2,
            (Action::AddExternalAddress { address: a1 }, Action::AddExternalAddress {
                address: a2,
            }) => a1.same(a2),
            _ => false,
        }
    }
}

impl PartialEqSpecImpl for Action {
    open spec fn obeys_eq_spec() -> bool {
        true
    }

    open spec fn eq_spec(&self, other: &Action) -> bool {
        self@ == other@
    }
}

/// The views of a list of events.
pub open spec fn events_view(events: Seq<Event>) -> Seq<EventView> {
    Seq::new(events.len(), |i: int| events[i]@)
}

/// The views of a list of actions.
pub open spec fn actions_view(actions: Seq<Action>) -> Seq<ActionView> {
    Seq::new(actions.len(), |i: int| actions[i]@)
}

/// A node: its identifier and all state of its control logic.
#[derive(Debug)]
pub struct Node {
    local: PeerId,
    seen: PeerSet,
    outbound: PeerMap,
    inbound: PeerMap,
    dials: DialQueue,
    addresses: AddressTracker,
}

impl View for Node {
    type V = NodeState;

    closed spec fn view(&self) -> NodeState {
        NodeState {
            local: self.local@,
            seen: self.seen@,
            outbound: self.outbound@,
            inbound: self.inbound@,
            dials: self.dials@,
            primary: self.addresses@.primary,
            candidates: self.addresses@.candidates,
        }
    }
}

impl Node {
    /// A node named `local` that has seen no event.
    pub fn new(local: PeerId) -> (node: Node)
        ensures
            node@ == NodeState::start(local@),
            node@.wf(),
    {
        let node = Node {
            local,
            seen: PeerSet::new(),
            outbound: PeerMap::new(),
            inbound: PeerMap::new(),
            dials: DialQueue::new(),
            addresses: AddressTracker::new(),
        };
        assert(node@.seen =~= Set::<Seq<u8>>::empty());
        node
    }

    /// Brings the invariants of the parts into scope.
    fn parts_hold(&self)
        ensures
            self@.wf(),
    {
        let pool = self.addresses.candidates();
        proof {
            use_type_invariant(&self.seen);
            use_type_invariant(&self.outbound);
            use_type_invariant(&self.inbound);
            use_type_invariant(pool);
            self.seen.lemma_finite();
        }
    }

    /// This node's own identifier.
    pub fn local_peer_id(&self) -> (id: &PeerId)
        ensures
            id@ == self@.local,
    {
        &self.local
    }

    /// The peers that discovery announced and has not withdrawn since.
    pub fn seen(&self) -> (set: &PeerSet)
        ensures
            set@ == self@.seen,
    {
        &self.seen
    }

    /// The outbound map.
    pub fn outbound(&self) -> (map: &PeerMap)
        ensures
            map@ == self@.outbound,
    {
        &self.outbound
    }

    /// The inbound map.
    pub fn inbound(&self) -> (map: &PeerMap)
        ensures
            map@ == self@.inbound,
    {
        &self.inbound
    }

    /// The dial queue.
    pub fn dial_queue(&self) -> (queue: &DialQueue)
        ensures
            queue@ == self@.dials,
    {
        &self.dials
    }

    /// The primary address and the candidate pool.
    pub fn addresses(&self) -> (tracker: &AddressTracker)
        ensures
            tracker@.primary == self@.primary,
            tracker@.candidates == self@.candidates,
    {
        &self.addresses
    }

    /// Whether `peer` is connected in either direction.
    pub fn is_connected(&self, peer: &PeerId) -> (r: bool)
        ensures
            r == self@.connected(peer@),
    {
        self.outbound.contains_key(peer) || self.inbound.contains_key(peer)
    }

    /// Discovery found `peer` at `address`. This node itself and peers seen
    /// already are ignored; a new peer is recorded as seen and a request to
    /// dial it joins the queue. Returns whether a request was queued.
    pub fn on_discovered(&mut self, peer: PeerId, address: Address) -> (enqueued: bool)
        ensures
            final(self)@ == discovered(old(self)@, peer@, address@),
            final(self)@.wf(),
            enqueued == (peer@ != old(self)@.local && !old(self)@.seen.contains(peer@)),
    {
        self.parts_hold();
        if peer.same(&self.local) || self.seen.contains(&peer) {
            false
        } else {
            self.seen.insert(peer.clone());
            self.dials.push(peer, address);
            self.parts_hold();
            true
        }
    }

    /// The discovery record of `peer` has expired. The peer is no longer
    /// seen, so a later discovery dials it again. A peer that discovery has
    /// lost is presumed gone: where it is connected, a disconnect is asked
    /// for. The maps stay as they are until the connection is reported
    /// closed.
    pub fn on_expired(&mut self, peer: PeerId) -> (actions: Vec<Action>)
        ensures
            final(self)@ == expired(old(self)@, peer@),
            final(self)@.wf(),
            actions_view(actions@) == expired_actions(old(self)@, peer@),
    {
        self.seen.remove(&peer);
        self.parts_hold();
        let mut actions: Vec<Action> = Vec::new();
        if self.is_connected(&peer) {
            actions.push(Action::Disconnect { peer, reason: DisconnectReason::DiscoveryExpired });
        }
        assert(actions_view(actions@) =~= expired_actions(old(self)@, peer@));
        actions
    }

    /// A connection with `peer` at `address` is open.
    ///
    /// An outbound connection is stored in the outbound map. An inbound
    /// connection is stored in the inbound map; only peers in the outbound
    /// map get greetings, so where the peer has no outbound entry a request
    /// to dial it back at `address` joins the queue.
    ///
    /// Where two nodes dial each other at the same time, both connections
    /// stand: each side keeps its own dial as outbound and the other's as
    /// inbound. No identifier decides between them. A side that registers
    /// the inbound connection first asks for one dial back, which the
    /// connection layer skips while it is connected or dialing.
    pub fn on_connection_established(
        &mut self,
        peer: PeerId,
        address: Address,
        direction: Direction,
    )
        ensures
            final(self)@ == established(old(self)@, peer@, address@, direction),
            final(self)@.wf(),
    {
        match direction {
            Direction::Outbound => {
                self.outbound.insert(peer, address);
            },
            Direction::Inbound => {
                if !self.outbound.contains_key(&peer) {
                    self.dials.push(peer.clone(), address.clone());
                }
                self.inbound.insert(peer, address);
            },
        }
        self.parts_hold();
    }

    /// The connection with `peer` is closed: the peer leaves the outbound and
    /// the inbound map, whichever held it.
    pub fn on_connection_closed(&mut self, peer: &PeerId)
        ensures
            final(self)@ == closed(old(self)@, peer@),
            final(self)@.wf(),
            !final(self)@.outbound_map().contains_key(peer@),
            !final(self)@.inbound_map().contains_key(peer@),
            final(self)@.outbound_map() == old(self)@.outbound_map().remove(peer@),
            final(self)@.inbound_map() == old(self)@.inbound_map().remove(peer@),
    {
        self.inbound.remove(peer);
        self.outbound.remove(peer);
        self.parts_hold();
    }

    /// `peer` advertised `protocol` in its handshake. Another node with a
    /// protocol identifier other than [`PROTOCOL`] is disconnected; a match
    /// gives no action. The check is made once, when the handshake arrives.
    pub fn on_identified(&self, peer: PeerId, protocol: &str) -> (actions: Vec<Action>)
        ensures
            actions_view(actions@) == identified_actions(self@, peer@, protocol@),
    {
        let mut actions: Vec<Action> = Vec::new();
        let advertised = protocol.to_owned();
        let expected = PROTOCOL.to_owned();
        if !peer.same(&self.local) && !(advertised == expected) {
            actions.push(Action::Disconnect { peer, reason: DisconnectReason::ProtocolMismatch });
        }
        assert(actions_view(actions@) =~= identified_actions(self@, peer@, protocol@));
        actions
    }

    /// The message of the greetings that this node sends now.
    pub fn greeting_message(&self) -> (text: String)
        ensures
            text@ == greeting_text(self@.primary),
    {
        let mut text = String::from_str(GREETING_PREFIX);
        match self.addresses.primary() {
            Some(address) => {
                let shown = address.to_text();
                text.append(shown.as_str());
            },
            None => {
                assert(text@ + Seq::<char>::empty() =~= text@);
            },
        }
        text.append(GREETING_SUFFIX);
        text
    }

    /// The greeting interval has passed: one greeting goes to every peer in
    /// the outbound map, in the order of the map, with the address stored
    /// for the peer and the message of this moment.
    pub fn on_tick(&self) -> (actions: Vec<Action>)
        ensures
            actions_view(actions@) == tick_actions(self@),
            actions@.len() == self@.outbound.len(),
    {
        let message = self.greeting_message();
        let mut actions: Vec<Action> = Vec::new();
        let mut i: usize = 0;
        while i < self.outbound.len()
            invariant
                i <= self@.outbound.len(),
                self.outbound@ == self@.outbound,
                message@ == greeting_text(self@.primary),
                actions@.len() == i,
                forall|j: int|
                    0 <= j < i ==> (#[trigger] actions@[j])@ == greeting_for(
                        self@.outbound[j],
                        self@.primary,
                    ),
            decreases self@.outbound.len() - i,
        {
            match self.outbound.entry(i) {
                Some((peer, address)) => {
                    actions.push(
                        Action::SendRequest {
                            peer: peer.clone(),
                            request: GreetRequest {
                                message: message.clone(),
                                address: address.clone(),
                            },
                        },
                    );
                },
                None => {},
            }
            i += 1;
        }
        assert(actions_view(actions@) =~= tick_actions(self@));
        actions
    }

    /// Whether a dial request waits in the queue.
    pub fn has_pending_dial(&self) -> (r: bool)
        ensures
            r == (self@.dials.len() > 0),
    {
        !self.dials.is_empty()
    }

    /// The consumer of the dial queue is ready for one request: the oldest
    /// request leaves the queue and is dialed. Whether the dial succeeds is
    /// not reported back; a failed dial is not tried again.
    pub fn on_dial_ready(&mut self) -> (actions: Vec<Action>)
        ensures
            final(self)@ == dial_taken(old(self)@),
            final(self)@.wf(),
            actions_view(actions@) == dial_actions(old(self)@),
    {
        let mut actions: Vec<Action> = Vec::new();
        match self.dials.pop() {
            Some((peer, address)) => {
                actions.push(Action::Dial { peer, address });
            },
            None => {},
        }
        self.parts_hold();
        assert(actions_view(actions@) =~= dial_actions(old(self)@));
        actions
    }

    /// A peer sent the greeting `request`: it goes to the responder.
    pub fn on_request(&self, request: GreetRequest) -> (actions: Vec<Action>)
        ensures
            actions_view(actions@) == seq![ActionView::InvokeResponder { request: request@ }],
    {
        let mut actions: Vec<Action> = Vec::new();
        actions.push(Action::InvokeResponder { request });
        assert(actions_view(actions@) =~= seq![ActionView::InvokeResponder { request: request@ }]);
        actions
    }

    /// The responder has finished with `outcome`: an answer is sent back, a
    /// failure is dropped without an answer and without another try.
    pub fn on_responder_finished(&self, outcome: Result<GreetResponse, ServiceError>) -> (actions:
        Vec<Action>)
        ensures
            actions_view(actions@) == responder_actions(outcome_view(outcome)),
    {
        let mut actions: Vec<Action> = Vec::new();
        match outcome {
            Ok(response) => {
                actions.push(Action::SendResponse { response });
            },
            Err(_) => {},
        }
        assert(actions_view(actions@) =~= responder_actions(outcome_view(outcome)));
        actions
    }

    /// Hands `request` to `responder` and decides on what it returns: an
    /// answer is sent back, a failure is dropped. The actions are those for
    /// an outcome that the responder gives for this very greeting. The state
    /// stays as it is.
    pub fn serve<R: Responder>(&self, responder: &mut R, request: GreetRequest) -> (actions: Vec<
        Action,
    >)
        ensures
            exists|outcome: Option<Greeting>|
                #[trigger] old(responder).answers(request@, outcome) && actions_view(actions@)
                    == responder_actions(outcome),
            actions@.len() <= 1,
            forall|i: int| 0 <= i < actions@.len() ==> #[trigger] actions@[i] is SendResponse,
    {
        let outcome = responder.respond(request);
        let ghost given = outcome_view(outcome);
        let actions = self.on_responder_finished(outcome);
        assert(old(responder).answers(request@, given) && actions_view(actions@)
            == responder_actions(given));
        assert(actions@.len() == actions_view(actions@).len());
        assert forall|i: int| 0 <= i < actions@.len() implies #[trigger] actions@[i]
            is SendResponse by {
            assert(actions_view(actions@)[i] == actions@[i]@);
        }
        actions
    }

    /// `peer` answered a greeting of this node with `response`: the address
    /// in it joins the candidate pool, unless the pool holds it already, and
    /// the text is reported.
    pub fn on_response(&mut self, peer: PeerId, response: GreetResponse) -> (actions: Vec<Action>)
        ensures
            final(self)@ == response_received(old(self)@, response@),
            final(self)@.wf(),
            final(self)@.candidate_set() == old(self)@.candidate_set().insert(response@.address),
            actions_view(actions@) == response_actions(peer@, response@),
    {
        self.parts_hold();
        proof {
            lemma_learn(self@.candidates, response@.address);
        }
        let GreetResponse { message, address } = response;
        self.addresses.on_candidate_learned(address.clone());
        self.parts_hold();
        let mut actions: Vec<Action> = Vec::new();
        actions.push(Action::Report { peer, message });
        actions.push(Action::AddExternalAddress { address });
        assert(actions_view(actions@) =~= response_actions(peer@, response@));
        actions
    }

    /// This node listens on the new address `address`.
    pub fn on_new_listen_address(&mut self, address: Address)
        ensures
            final(self)@ == primary_set(old(self)@, address@),
            final(self)@.wf(),
    {
        self.addresses.on_new_listen_address(address);
        self.parts_hold();
    }

    /// The external address `address` of this node was confirmed.
    pub fn on_external_address_confirmed(&mut self, address: Address)
        ensures
            final(self)@ == primary_set(old(self)@, address@),
            final(self)@.wf(),
    {
        self.addresses.on_external_address_confirmed(address);
        self.parts_hold();
    }

    /// Takes one event: updates the state and returns the actions to perform,
    /// in order.
    pub fn handle(&mut self, event: Event) -> (actions: Vec<Action>)
        ensures
            (final(self)@, actions_view(actions@)) == step(old(self)@, event@),
            final(self)@.wf(),
    {
        self.parts_hold();
        match event {
            Event::Tick => self.on_tick(),
            Event::DialReady => self.on_dial_ready(),
            Event::Discovered { peer, address } => {
                self.on_discovered(peer, address);
                let actions: Vec<Action> = Vec::new();
                assert(actions_view(actions@) =~= Seq::<ActionView>::empty());
                actions
            },
            Event::Expired { peer } => self.on_expired(peer),
            Event::ConnectionEstablished { peer, address, direction } => {
                self.on_connection_established(peer, address, direction);
                let actions: Vec<Action> = Vec::new();
                assert(actions_view(actions@) =~= Seq::<ActionView>::empty());
                actions
            },
            Event::ConnectionClosed { peer } => {
                self.on_connection_closed(&peer);
                let actions: Vec<Action> = Vec::new();
                assert(actions_view(actions@) =~= Seq::<ActionView>::empty());
                actions
            },
            Event::Identified { peer, protocol } => self.on_identified(peer, protocol.as_str()),
            Event::RequestReceived { peer, request } => self.on_request(request),
            Event::ResponderFinished { outcome } => self.on_responder_finished(outcome),
            Event::ResponseReceived { peer, response } => self.on_response(peer, response),
            Event::NewListenAddress { address } => {
                self.on_new_listen_address(address);
                let actions: Vec<Action> = Vec::new();
                assert(actions_view(actions@) =~= Seq::<ActionView>::empty());
                actions
            },
            Event::ExternalAddressConfirmed { address } => {
                self.on_external_address_confirmed(address);
                let actions: Vec<Action> = Vec::new();
                assert(actions_view(actions@) =~= Seq::<ActionView>::empty());
                actions
            },
        }
    }

    /// Takes the events one after the other and returns all actions in order.
    pub fn handle_all(&mut self, events: Vec<Event>) -> (actions: Vec<Action>)
        ensures
            (final(self)@, actions_view(actions@)) == run(old(self)@, events_view(events@)),
            final(self)@.wf(),
    {
        self.parts_hold();
        let ghost start = self@;
        let ghost all = events_view(events@);
        let mut actions: Vec<Action> = Vec::new();
        assert(actions_view(actions@) =~= Seq::<ActionView>::empty());
        assert(all.take(0) =~= Seq::<EventView>::empty());
        for event in it: events
            invariant
                all == events_view(events@),
                it.seq() == events@,
                self@.wf(),
                (self@, actions_view(actions@)) == run(start, all.take(it.index() as int)),
        {
            let ghost n = it.index() as int;
            let ghost before = self@;
            let ghost earlier = actions_view(actions@);
            proof {
                assert(all.take(n + 1).drop_last() =~= all.take(n));
                assert(all.take(n + 1).last() == event@);
            }
            let mut latest = self.handle(event);
            let ghost added = actions_view(latest@);
            actions.append(&mut latest);
            assert(actions_view(actions@) =~= earlier + added);
        }
        assert(all.take(events@.len() as int) =~= all);
        actions
    }
}

} // verus!
