//! The node as a mathematical state machine.
//!
//! [`NodeState`] is the state record over byte strings, sets and sequences;
//! [`step`] says for every event what the next state is and which actions
//! the node asks for; [`run`] does so for a sequence of events. The
//! executable node is specified against these functions.

use crate::address::multiaddr_text;
use crate::assoc::{as_map, distinct_keys, has_key, put, without, Entries};
use crate::protocol::{Greeting, PROTOCOL};
use crate::tracker::learn;
use vstd::prelude::*;

verus! {

/// Text before the address in the message of an outgoing greeting.
pub const GREETING_PREFIX: &'static str = "Hello from Raunak";

/// Text after the address in the message of an outgoing greeting.
pub const GREETING_SUFFIX: &'static str = "!!";

/// Who opened a connection.
#[derive(Clone, Copy, Debug, PartialEq, Eq, Structural)]
pub enum Direction {
    /// This node dialed the peer.
    Outbound,
    /// The peer dialed this node.
    Inbound,
}

/// Why the node asks to drop a peer.
#[derive(Clone, Copy, Debug, PartialEq, Eq, Structural)]
pub enum DisconnectReason {
    /// Discovery withdrew the peer.
    DiscoveryExpired,
    /// The peer advertised another protocol identifier.
    ProtocolMismatch,
}

/// All state of a node.
pub struct NodeState {
    /// This node's own identifier.
    pub local: Seq<u8>,
    /// Peers that discovery announced and has not withdrawn since.
    pub seen: Set<Seq<u8>>,
    /// Peers to which this node holds a connection that it opened.
    pub outbound: Entries,
    /// Peers that hold a connection to this node that they opened.
    pub inbound: Entries,
    /// Dial requests that await an attempt, oldest first.
    pub dials: Seq<(Seq<u8>, Seq<u8>)>,
    /// The current best-known external address.
    pub primary: Option<Seq<u8>>,
    /// Addresses learned from greeting responses.
    pub candidates: Seq<Seq<u8>>,
}

/// An event, over byte strings.
pub enum EventView {
    Tick,
    DialReady,
    Discovered { peer: Seq<u8>, address: Seq<u8> },
    Expired { peer: Seq<u8> },
    ConnectionEstablished { peer: Seq<u8>, address: Seq<u8>, direction: Direction },
    ConnectionClosed { peer: Seq<u8> },
    Identified { peer: Seq<u8>, protocol: Seq<char> },
    RequestReceived { peer: Seq<u8>, request: Greeting },
    ResponderFinished { outcome: Option<Greeting> },
    ResponseReceived { peer: Seq<u8>, response: Greeting },
    NewListenAddress { address: Seq<u8> },
    ExternalAddressConfirmed { address: Seq<u8> },
}

/// An action, over byte strings.
pub enum ActionView {
    SendRequest { peer: Seq<u8>, request: Greeting },
    SendResponse { response: Greeting },
    InvokeResponder { request: Greeting },
    Dial { peer: Seq<u8>, address: Seq<u8> },
    Disconnect { peer: Seq<u8>, reason: DisconnectReason },
    Report { peer: Seq<u8>, message: Seq<char> },
    AddExternalAddress { address: Seq<u8> },
}

impl NodeState {
    /// The state of a node that has seen no event.
    pub open spec fn start(local: Seq<u8>) -> NodeState {
        NodeState {
            local,
            seen: Set::empty(),
            outbound: Seq::empty(),
            inbound: Seq::empty(),
            dials: Seq::empty(),
            primary: None,
            candidates: Seq::empty(),
        }
    }

    /// No peer occurs twice in a map, no address twice in the pool, and the
    /// set of seen peers is finite.
    pub open spec fn wf(self) -> bool {
        &&& self.seen.finite()
        &&& distinct_keys(self.outbound)
        &&& distinct_keys(self.inbound)
        &&& self.candidates.no_duplicates()
    }

    /// The outbound map: peer to the address that was dialed.
    pub open spec fn outbound_map(self) -> Map<Seq<u8>, Seq<u8>> {
        as_map(self.outbound)
    }

    /// The inbound map: peer to the address it connected from.
    pub open spec fn inbound_map(self) -> Map<Seq<u8>, Seq<u8>> {
        as_map(self.inbound)
    }

    /// The candidate pool as a set.
    pub open spec fn candidate_set(self) -> Set<Seq<u8>> {
        self.candidates.to_set()
    }

    /// Whether a connection with `peer` is open in either direction.
    pub open spec fn connected(self, peer: Seq<u8>) -> bool {
        has_key(self.outbound, peer) || has_key(self.inbound, peer)
    }
}

/// The message of an outgoing greeting: it names this node and holds the
/// text of the primary address, or nothing where none is known yet.
pub open spec fn greeting_text(primary: Option<Seq<u8>>) -> Seq<char> {
    GREETING_PREFIX@ + (match primary {
        Some(address) => multiaddr_text(address),
        None => Seq::empty(),
    }) + GREETING_SUFFIX@
}

/// The greeting sent to the peer of one outbound entry.
pub open spec fn greeting_for(entry: (Seq<u8>, Seq<u8>), primary: Option<Seq<u8>>) -> ActionView {
    ActionView::SendRequest {
        peer: entry.0,
        request: Greeting { message: greeting_text(primary), address: entry.1 },
    }
}

/// Discovery announces `peer` at `address`. The node's own identifier and
/// peers already seen are ignored; any other peer is recorded as seen and a
/// request to dial it joins the queue.
pub open spec fn discovered(s: NodeState, peer: Seq<u8>, address: Seq<u8>) -> NodeState {
    if peer == s.local || s.seen.contains(peer) {
        s
    } else {
        NodeState { seen: s.seen.insert(peer), dials: s.dials.push((peer, address)), ..s }
    }
}

/// Discovery withdraws `peer`: it is no longer seen.
pub open spec fn expired(s: NodeState, peer: Seq<u8>) -> NodeState {
    NodeState { seen: s.seen.remove(peer), ..s }
}

/// The actions on the expiry of `peer`: a disconnect if it is connected.
pub open spec fn expired_actions(s: NodeState, peer: Seq<u8>) -> Seq<ActionView> {
    if s.connected(peer) {
        seq![ActionView::Disconnect { peer, reason: DisconnectReason::DiscoveryExpired }]
    } else {
        Seq::empty()
    }
}

/// A connection with `peer` at `address` is open. An outbound connection is
/// registered in the outbound map. An inbound connection is registered in
/// the inbound map, and where the peer has no outbound entry a request to
/// dial it back at `address` joins the queue.
pub open spec fn established(
    s: NodeState,
    peer: Seq<u8>,
    address: Seq<u8>,
    direction: Direction,
) -> NodeState {
    match direction {
        Direction::Outbound => NodeState { outbound: put(s.outbound, peer, address), ..s },
        Direction::Inbound => NodeState {
            inbound: put(s.inbound, peer, address),
            dials: if has_key(s.outbound, peer) {
                s.dials
            } else {
                s.dials.push((peer, address))
            },
            ..s
        },
    }
}

/// The connection with `peer` is closed: it leaves both maps.
pub open spec fn closed(s: NodeState, peer: Seq<u8>) -> NodeState {
    NodeState { outbound: without(s.outbound, peer), inbound: without(s.inbound, peer), ..s }
}

/// Whether a peer that advertises `protocol` in its handshake is dropped.
pub open spec fn incompatible(s: NodeState, peer: Seq<u8>, protocol: Seq<char>) -> bool {
    peer != s.local && protocol != PROTOCOL@
}

/// The actions on the handshake of `peer`: a disconnect on a mismatch.
pub open spec fn identified_actions(
    s: NodeState,
    peer: Seq<u8>,
    protocol: Seq<char>,
) -> Seq<ActionView> {
    if incompatible(s, peer, protocol) {
        seq![ActionView::Disconnect { peer, reason: DisconnectReason::ProtocolMismatch }]
    } else {
        Seq::empty()
    }
}

/// The actions on a tick: one greeting per outbound entry, in the order of
/// the entries, each with the primary address of this moment in its text.
pub open spec fn tick_actions(s: NodeState) -> Seq<ActionView> {
    Seq::new(s.outbound.len(), |i: int| greeting_for(s.outbound[i], s.primary))
}

/// The dial queue after its consumer took one request.
pub open spec fn dial_taken(s: NodeState) -> NodeState {
    if s.dials.len() > 0 {
        NodeState { dials: s.dials.drop_first(), ..s }
    } else {
        s
    }
}

/// The actions when the consumer of the dial queue is ready: a dial of the
/// oldest request, if there is one.
pub open spec fn dial_actions(s: NodeState) -> Seq<ActionView> {
    if s.dials.len() > 0 {
        seq![ActionView::Dial { peer: s.dials[0].0, address: s.dials[0].1 }]
    } else {
        Seq::empty()
    }
}

/// The actions when the responder has finished: its answer is sent back, a
/// failure is dropped.
pub open spec fn responder_actions(outcome: Option<Greeting>) -> Seq<ActionView> {
    match outcome {
        Some(response) => seq![ActionView::SendResponse { response }],
        None => Seq::empty(),
    }
}

/// A greeting response arrived: its address joins the candidate pool.
pub open spec fn response_received(s: NodeState, response: Greeting) -> NodeState {
    NodeState { candidates: learn(s.candidates, response.address), ..s }
}

/// The actions on a greeting response: its text is reported and its address
/// is handed on as an external address.
pub open spec fn response_actions(peer: Seq<u8>, response: Greeting) -> Seq<ActionView> {
    seq![
        ActionView::Report { peer, message: response.message },
        ActionView::AddExternalAddress { address: response.address },
    ]
}

/// A new listening or confirmed external address replaces the primary one.
pub open spec fn primary_set(s: NodeState, address: Seq<u8>) -> NodeState {
    NodeState { primary: Some(address), ..s }
}

/// The next state and the actions for one event.
pub open spec fn step(s: NodeState, event: EventView) -> (NodeState, Seq<ActionView>) {
    match event {
        EventView::Tick => (s, tick_actions(s)),
        EventView::DialReady => (dial_taken(s), dial_actions(s)),
        EventView::Discovered { peer, address } => (discovered(s, peer, address), Seq::empty()),
        EventView::Expired { peer } => (expired(s, peer), expired_actions(s, peer)),
        EventView::ConnectionEstablished { peer, address, direction } => (
            established(s, peer, address, direction),
            Seq::empty(),
        ),
        EventView::ConnectionClosed { peer } => (closed(s, peer), Seq::empty()),
        EventView::Identified { peer, protocol } => (s, identified_actions(s, peer, protocol)),
        EventView::RequestReceived { peer, request } => (
            s,
            seq![ActionView::InvokeResponder { request }],
        ),
        EventView::ResponderFinished { outcome } => (s, responder_actions(outcome)),
        EventView::ResponseReceived { peer, response } => (
            response_received(s, response),
            response_actions(peer, response),
        ),
        EventView::NewListenAddress { address } => (primary_set(s, address), Seq::empty()),
        EventView::ExternalAddressConfirmed { address } => (
            primary_set(s, address),
            Seq::empty(),
        ),
    }
}

/// The state after a sequence of events, and all actions in order.
pub open spec fn run(s: NodeState, events: Seq<EventView>) -> (NodeState, Seq<ActionView>)
    decreases events.len(),
{
    if events.len() == 0 {
        (s, Seq::empty())
    } else {
        let (before, earlier) = run(s, events.drop_last());
        let (after, latest) = step(before, events.last());
        (after, earlier + latest)
    }
}

} // verus!
