use greet_node::address::Address;
use greet_node::model::{Direction, DisconnectReason};
use greet_node::node::{Action, Event, Node};
use greet_node::peer::PeerId;
use greet_node::protocol::{GreetRequest, GreetResponse, AGENT_VERSION, GREETING_INTERVAL_SECS, PROTOCOL};
use greet_node::service::{GreetService, Responder, ServiceError};

fn peer(n: u8) -> PeerId {
    PeerId::from_bytes(vec![0, 1, n])
}

fn addr(port: u16) -> Address {
    Address::parse(&format!("/ip4/10.0.0.1/udp/{}/quic-v1", port)).expect("a multiaddress")
}

fn node() -> Node {
    Node::new(peer(0))
}

fn greeting(message: &str, address: Address) -> GreetRequest {
    GreetRequest { message: message.to_string(), address }
}

fn answer(message: &str, address: Address) -> GreetResponse {
    GreetResponse { message: message.to_string(), address }
}

struct Hello;

impl Responder for Hello {
    fn respond(&mut self, request: GreetRequest) -> Result<GreetResponse, ServiceError> {
        Ok(GreetResponse { message: "hello".to_string(), address: request.address })
    }
}

struct Broken;

impl Responder for Broken {
    fn respond(&mut self, _request: GreetRequest) -> Result<GreetResponse, ServiceError> {
        Err(ServiceError { reason: "out of service".to_string() })
    }
}

#[test]
fn constants_of_the_protocol() {
    assert_eq!(PROTOCOL, "/foo/1");
    assert_eq!(AGENT_VERSION, "peer/0.0.1");
    assert_eq!(GREETING_INTERVAL_SECS, 5);
}

#[test]
fn a_new_node_is_empty() {
    let n = node();
    assert_eq!(n.local_peer_id(), &peer(0));
    assert_eq!(n.seen().len(), 0);
    assert_eq!(n.outbound().len(), 0);
    assert_eq!(n.inbound().len(), 0);
    assert!(n.dial_queue().is_empty());
    assert!(!n.has_pending_dial());
    assert_eq!(n.addresses().primary(), None);
    assert_eq!(n.addresses().candidates().len(), 0);
}

#[test]
fn discovery_enqueues_a_new_peer_once() {
    let mut n = node();
    assert!(n.on_discovered(peer(1), addr(1)));
    assert!(!n.on_discovered(peer(1), addr(1)));
    assert!(!n.on_discovered(peer(1), addr(2)));
    assert!(n.seen().contains(&peer(1)));
    assert_eq!(n.dial_queue().len(), 1);
    assert_eq!(
        n.on_dial_ready(),
        vec![Action::Dial { peer: peer(1), address: addr(1) }]
    );
    assert_eq!(n.on_dial_ready(), vec![]);
}

#[test]
fn discovery_ignores_this_node() {
    let mut n = node();
    assert!(!n.on_discovered(peer(0), addr(1)));
    assert!(!n.seen().contains(&peer(0)));
    assert_eq!(n.seen().len(), 0);
    assert!(!n.has_pending_dial());
}

#[test]
fn seen_set_follows_discovery_and_expiry() {
    let mut n = node();
    let events = vec![
        Event::Discovered { peer: peer(1), address: addr(1) },
        Event::Discovered { peer: peer(2), address: addr(2) },
        Event::Expired { peer: peer(1) },
        Event::Discovered { peer: peer(3), address: addr(3) },
        Event::Expired { peer: peer(4) },
        Event::Discovered { peer: peer(2), address: addr(9) },
        Event::Discovered { peer: peer(0), address: addr(5) },
        Event::Expired { peer: peer(3) },
        Event::Discovered { peer: peer(3), address: addr(6) },
    ];
    let actions = n.handle_all(events);
    assert_eq!(actions, vec![]);
    assert!(!n.seen().contains(&peer(0)));
    assert!(!n.seen().contains(&peer(1)));
    assert!(n.seen().contains(&peer(2)));
    assert!(n.seen().contains(&peer(3)));
    assert!(!n.seen().contains(&peer(4)));
    assert_eq!(n.seen().len(), 2);
    // peer 2 was found twice without expiring: one dial; peer 3 expired in between: two
    let mut dials = Vec::new();
    while n.has_pending_dial() {
        dials.extend(n.on_dial_ready());
    }
    assert_eq!(
        dials,
        vec![
            Action::Dial { peer: peer(1), address: addr(1) },
            Action::Dial { peer: peer(2), address: addr(2) },
            Action::Dial { peer: peer(3), address: addr(3) },
            Action::Dial { peer: peer(3), address: addr(6) },
        ]
    );
}

#[test]
fn expiry_of_an_unconnected_peer_asks_for_nothing() {
    let mut n = node();
    n.on_discovered(peer(1), addr(1));
    assert_eq!(n.on_expired(peer(1)), vec![]);
    assert!(!n.seen().contains(&peer(1)));
    assert_eq!(n.on_expired(peer(2)), vec![]);
}

#[test]
fn expiry_of_a_connected_peer_asks_for_a_disconnect() {
    let mut n = node();
    n.on_discovered(peer(1), addr(1));
    n.on_connection_established(peer(1), addr(1), Direction::Outbound);
    assert_eq!(
        n.on_expired(peer(1)),
        vec![Action::Disconnect { peer: peer(1), reason: DisconnectReason::DiscoveryExpired }]
    );
    // the maps change only when the connection is reported closed
    assert!(n.outbound().contains_key(&peer(1)));
    let mut m = node();
    m.on_connection_established(peer(2), addr(2), Direction::Inbound);
    assert_eq!(
        m.on_expired(peer(2)),
        vec![Action::Disconnect { peer: peer(2), reason: DisconnectReason::DiscoveryExpired }]
    );
}

#[test]
fn outbound_connection_is_registered() {
    let mut n = node();
    n.on_connection_established(peer(1), addr(1), Direction::Outbound);
    assert_eq!(n.outbound().get(&peer(1)), Some(&addr(1)));
    assert_eq!(n.inbound().get(&peer(1)), None);
    assert!(!n.has_pending_dial());
    assert!(n.is_connected(&peer(1)));
    assert!(!n.is_connected(&peer(2)));
    // a second connection to the same peer overwrites the address
    n.on_connection_established(peer(1), addr(2), Direction::Outbound);
    assert_eq!(n.outbound().get(&peer(1)), Some(&addr(2)));
    assert_eq!(n.outbound().len(), 1);
}

#[test]
fn inbound_connection_without_outbound_entry_dials_back() {
    let mut n = node();
    n.on_connection_established(peer(1), addr(1), Direction::Inbound);
    assert_eq!(n.inbound().get(&peer(1)), Some(&addr(1)));
    assert_eq!(n.outbound().get(&peer(1)), None);
    assert_eq!(
        n.on_dial_ready(),
        vec![Action::Dial { peer: peer(1), address: addr(1) }]
    );
}

#[test]
fn inbound_connection_with_outbound_entry_does_not_dial_back() {
    let mut n = node();
    n.on_connection_established(peer(1), addr(1), Direction::Outbound);
    n.on_connection_established(peer(1), addr(2), Direction::Inbound);
    assert_eq!(n.inbound().get(&peer(1)), Some(&addr(2)));
    assert_eq!(n.outbound().get(&peer(1)), Some(&addr(1)));
    assert!(!n.has_pending_dial());
}

#[test]
fn close_removes_the_peer_from_both_maps() {
    let mut n = node();
    n.on_connection_established(peer(1), addr(1), Direction::Outbound);
    n.on_connection_established(peer(1), addr(2), Direction::Inbound);
    n.on_connection_established(peer(2), addr(3), Direction::Outbound);
    n.on_connection_established(peer(3), addr(4), Direction::Inbound);
    n.on_connection_closed(&peer(1));
    assert!(!n.outbound().contains_key(&peer(1)));
    assert!(!n.inbound().contains_key(&peer(1)));
    assert!(!n.is_connected(&peer(1)));
    assert_eq!(n.outbound().get(&peer(2)), Some(&addr(3)));
    assert_eq!(n.inbound().get(&peer(3)), Some(&addr(4)));
    // held by one map only
    n.on_connection_closed(&peer(2));
    n.on_connection_closed(&peer(3));
    assert_eq!(n.outbound().len(), 0);
    assert_eq!(n.inbound().len(), 0);
    // held by neither
    n.on_connection_closed(&peer(4));
    assert_eq!(n.outbound().len(), 0);
    assert_eq!(n.inbound().len(), 0);
}

#[test]
fn protocol_mismatch_gives_one_disconnect() {
    let mut n = node();
    n.on_connection_established(peer(1), addr(1), Direction::Outbound);
    assert_eq!(
        n.on_identified(peer(1), "/bar/1"),
        vec![Action::Disconnect { peer: peer(1), reason: DisconnectReason::ProtocolMismatch }]
    );
    assert_eq!(
        n.on_identified(peer(1), ""),
        vec![Action::Disconnect { peer: peer(1), reason: DisconnectReason::ProtocolMismatch }]
    );
    assert_eq!(
        n.on_identified(peer(1), "/foo/10"),
        vec![Action::Disconnect { peer: peer(1), reason: DisconnectReason::ProtocolMismatch }]
    );
}

#[test]
fn protocol_match_is_silent() {
    let n = node();
    assert_eq!(n.on_identified(peer(1), "/foo/1"), vec![]);
    assert_eq!(n.on_identified(peer(1), PROTOCOL), vec![]);
}

#[test]
fn protocol_of_this_node_is_not_checked() {
    let n = node();
    assert_eq!(n.on_identified(peer(0), "/bar/1"), vec![]);
}

#[test]
fn mismatched_peer_gets_no_greeting_once_closed() {
    let mut n = node();
    n.on_new_listen_address(addr(100));
    n.on_connection_established(peer(1), addr(1), Direction::Outbound);
    n.on_connection_established(peer(2), addr(2), Direction::Outbound);
    let drop = n.on_identified(peer(1), "/bar/1");
    assert_eq!(drop.len(), 1);
    n.on_connection_closed(&peer(1));
    let sends = n.on_tick();
    assert_eq!(
        sends,
        vec![Action::SendRequest {
            peer: peer(2),
            request: greeting("Hello from Raunak/ip4/10.0.0.1/udp/100/quic-v1!!", addr(2)),
        }]
    );
    n.on_connection_established(peer(1), addr(1), Direction::Inbound);
    assert_eq!(n.on_tick().len(), 1);
}

#[test]
fn tick_without_peers_sends_nothing() {
    let n = node();
    assert_eq!(n.on_tick(), vec![]);
}

#[test]
fn tick_greets_every_outbound_peer_once() {
    let mut n = node();
    n.on_new_listen_address(addr(100));
    n.on_connection_established(peer(1), addr(1), Direction::Outbound);
    n.on_connection_established(peer(2), addr(2), Direction::Outbound);
    n.on_connection_established(peer(3), addr(3), Direction::Outbound);
    n.on_connection_established(peer(4), addr(4), Direction::Inbound);
    let text = "Hello from Raunak/ip4/10.0.0.1/udp/100/quic-v1!!";
    assert_eq!(
        n.on_tick(),
        vec![
            Action::SendRequest { peer: peer(1), request: greeting(text, addr(1)) },
            Action::SendRequest { peer: peer(2), request: greeting(text, addr(2)) },
            Action::SendRequest { peer: peer(3), request: greeting(text, addr(3)) },
        ]
    );
    // a tick changes nothing: the next one gives the same
    assert_eq!(n.on_tick().len(), 3);
}

#[test]
fn tick_carries_the_primary_address_of_the_moment() {
    let mut n = node();
    n.on_connection_established(peer(1), addr(1), Direction::Outbound);
    assert_eq!(n.greeting_message(), "Hello from Raunak!!");
    assert_eq!(
        n.on_tick(),
        vec![Action::SendRequest { peer: peer(1), request: greeting("Hello from Raunak!!", addr(1)) }]
    );
    n.on_new_listen_address(addr(100));
    assert_eq!(
        n.on_tick(),
        vec![Action::SendRequest {
            peer: peer(1),
            request: greeting("Hello from Raunak/ip4/10.0.0.1/udp/100/quic-v1!!", addr(1)),
        }]
    );
    n.on_external_address_confirmed(addr(200));
    assert_eq!(n.addresses().primary(), Some(&addr(200)));
    assert_eq!(
        n.on_tick(),
        vec![Action::SendRequest {
            peer: peer(1),
            request: greeting("Hello from Raunak/ip4/10.0.0.1/udp/200/quic-v1!!", addr(1)),
        }]
    );
}

#[test]
fn request_is_handed_to_the_responder() {
    let n = node();
    assert_eq!(
        n.on_request(greeting("hi", addr(1))),
        vec![Action::InvokeResponder { request: greeting("hi", addr(1)) }]
    );
}

#[test]
fn responder_answer_is_sent_back() {
    let n = node();
    assert_eq!(
        n.on_responder_finished(Ok(answer("hello", addr(1)))),
        vec![Action::SendResponse { response: answer("hello", addr(1)) }]
    );
}

#[test]
fn responder_failure_is_dropped() {
    let n = node();
    let failure = ServiceError { reason: "out of service".to_string() };
    assert_eq!(n.on_responder_finished(Err(failure)), vec![]);
    let mut broken = Broken;
    assert_eq!(n.serve(&mut broken, greeting("hi", addr(1))), vec![]);
}

#[test]
fn greet_service_answers_with_its_text_and_the_same_address() {
    let mut service = GreetService;
    assert!(service.poll_ready().is_ok());
    let answered = service.call(greeting("hi", addr(1))).expect("an answer");
    assert_eq!(answered, answer("Hello Back!! R27", addr(1)));
    let n = node();
    let mut copy = service.clone();
    assert_eq!(
        n.serve(&mut copy, greeting("anything", addr(2))),
        vec![Action::SendResponse { response: answer("Hello Back!! R27", addr(2)) }]
    );
}

#[test]
fn response_is_reported_and_its_address_learned() {
    let mut n = node();
    n.on_new_listen_address(addr(100));
    let actions = n.on_response(peer(1), answer("hello", addr(7)));
    assert_eq!(
        actions,
        vec![
            Action::Report { peer: peer(1), message: "hello".to_string() },
            Action::AddExternalAddress { address: addr(7) },
        ]
    );
    assert!(n.addresses().candidates().contains(&addr(7)));
    assert_eq!(n.addresses().candidates().len(), 1);
    assert_eq!(n.addresses().primary(), Some(&addr(100)));
}

#[test]
fn response_twice_leaves_the_address_once() {
    let mut n = node();
    n.on_response(peer(1), answer("hello", addr(7)));
    assert_eq!(n.addresses().candidates().len(), 1);
    n.on_response(peer(1), answer("hello", addr(7)));
    assert_eq!(n.addresses().candidates().len(), 1);
    n.on_response(peer(2), answer("hello again", addr(7)));
    assert_eq!(n.addresses().candidates().len(), 1);
    assert_eq!(n.addresses().candidates().get(0), Some(&addr(7)));
    n.on_response(peer(2), answer("hello", addr(8)));
    assert_eq!(n.addresses().candidates().len(), 2);
    assert!(n.addresses().candidates().contains(&addr(7)));
    assert!(n.addresses().candidates().contains(&addr(8)));
}

#[test]
fn handle_does_what_the_handlers_do() {
    let mut n = node();
    assert_eq!(n.handle(Event::NewListenAddress { address: addr(100) }), vec![]);
    assert_eq!(n.handle(Event::Discovered { peer: peer(1), address: addr(1) }), vec![]);
    assert_eq!(
        n.handle(Event::DialReady),
        vec![Action::Dial { peer: peer(1), address: addr(1) }]
    );
    assert_eq!(n.handle(Event::DialReady), vec![]);
    assert_eq!(
        n.handle(Event::ConnectionEstablished {
            peer: peer(1),
            address: addr(1),
            direction: Direction::Outbound,
        }),
        vec![]
    );
    assert_eq!(
        n.handle(Event::Identified { peer: peer(1), protocol: "/foo/2".to_string() }),
        vec![Action::Disconnect { peer: peer(1), reason: DisconnectReason::ProtocolMismatch }]
    );
    assert_eq!(
        n.handle(Event::Tick),
        vec![Action::SendRequest {
            peer: peer(1),
            request: greeting("Hello from Raunak/ip4/10.0.0.1/udp/100/quic-v1!!", addr(1)),
        }]
    );
    assert_eq!(
        n.handle(Event::RequestReceived { peer: peer(1), request: greeting("hi", addr(5)) }),
        vec![Action::InvokeResponder { request: greeting("hi", addr(5)) }]
    );
    assert_eq!(
        n.handle(Event::ResponderFinished { outcome: Ok(answer("hello", addr(5))) }),
        vec![Action::SendResponse { response: answer("hello", addr(5)) }]
    );
    assert_eq!(
        n.handle(Event::ResponderFinished {
            outcome: Err(ServiceError { reason: "no".to_string() })
        }),
        vec![]
    );
    assert_eq!(
        n.handle(Event::ResponseReceived { peer: peer(1), response: answer("yo", addr(6)) }),
        vec![
            Action::Report { peer: peer(1), message: "yo".to_string() },
            Action::AddExternalAddress { address: addr(6) },
        ]
    );
    assert_eq!(n.handle(Event::ExternalAddressConfirmed { address: addr(200) }), vec![]);
    assert_eq!(n.addresses().primary(), Some(&addr(200)));
    assert_eq!(
        n.handle(Event::Expired { peer: peer(1) }),
        vec![Action::Disconnect { peer: peer(1), reason: DisconnectReason::DiscoveryExpired }]
    );
    assert_eq!(n.handle(Event::ConnectionClosed { peer: peer(1) }), vec![]);
    assert_eq!(n.handle(Event::Tick), vec![]);
}

#[test]
fn handle_all_gives_the_actions_in_order() {
    let mut n = node();
    let actions = n.handle_all(vec![
        Event::ConnectionEstablished {
            peer: peer(1),
            address: addr(1),
            direction: Direction::Inbound,
        },
        Event::DialReady,
        Event::ConnectionEstablished {
            peer: peer(1),
            address: addr(1),
            direction: Direction::Outbound,
        },
        Event::Tick,
        Event::Expired { peer: peer(1) },
    ]);
    assert_eq!(
        actions,
        vec![
            Action::Dial { peer: peer(1), address: addr(1) },
            Action::SendRequest { peer: peer(1), request: greeting("Hello from Raunak!!", addr(1)) },
            Action::Disconnect { peer: peer(1), reason: DisconnectReason::DiscoveryExpired },
        ]
    );
    assert_eq!(n.handle_all(vec![]), vec![]);
}

#[test]
fn scenario_two_nodes_connect_both_ways() {
    let x_id = peer(10);
    let y_id = peer(20);
    let x_at = addr(10);
    let y_at = addr(20);
    let mut x = Node::new(x_id.clone());
    let mut y = Node::new(y_id.clone());
    // X discovers Y and dials it
    assert!(x.on_discovered(y_id.clone(), y_at.clone()));
    assert_eq!(
        x.on_dial_ready(),
        vec![Action::Dial { peer: y_id.clone(), address: y_at.clone() }]
    );
    // the connection is outbound for X and inbound for Y
    x.on_connection_established(y_id.clone(), y_at.clone(), Direction::Outbound);
    y.on_connection_established(x_id.clone(), x_at.clone(), Direction::Inbound);
    // Y has no outbound entry for X yet, so it dials back
    assert!(!y.outbound().contains_key(&x_id));
    assert_eq!(
        y.on_dial_ready(),
        vec![Action::Dial { peer: x_id.clone(), address: x_at.clone() }]
    );
    y.on_connection_established(x_id.clone(), x_at.clone(), Direction::Outbound);
    x.on_connection_established(y_id.clone(), y_at.clone(), Direction::Inbound);
    // both outbound maps hold the other side, and nobody dials again
    assert_eq!(x.outbound().get(&y_id), Some(&y_at));
    assert_eq!(y.outbound().get(&x_id), Some(&x_at));
    assert!(!x.has_pending_dial());
    assert!(!y.has_pending_dial());
    assert_eq!(x.on_tick().len(), 1);
    assert_eq!(y.on_tick().len(), 1);
}

#[test]
fn scenario_two_nodes_dial_each_other_at_once() {
    let x_id = peer(10);
    let y_id = peer(20);
    let mut x = Node::new(x_id.clone());
    let mut y = Node::new(y_id.clone());
    x.on_discovered(y_id.clone(), addr(20));
    y.on_discovered(x_id.clone(), addr(10));
    assert_eq!(x.on_dial_ready().len(), 1);
    assert_eq!(y.on_dial_ready().len(), 1);
    // both dials succeed: each side keeps its own dial as outbound and the other's as inbound
    x.on_connection_established(y_id.clone(), addr(20), Direction::Outbound);
    x.on_connection_established(y_id.clone(), addr(21), Direction::Inbound);
    y.on_connection_established(x_id.clone(), addr(11), Direction::Inbound);
    y.on_connection_established(x_id.clone(), addr(10), Direction::Outbound);
    assert_eq!(x.outbound().get(&y_id), Some(&addr(20)));
    assert_eq!(x.inbound().get(&y_id), Some(&addr(21)));
    assert_eq!(y.outbound().get(&x_id), Some(&addr(10)));
    assert_eq!(y.inbound().get(&x_id), Some(&addr(11)));
    // X had its outbound entry when the inbound connection came: no dial back.
    // Y got the inbound connection first: one dial back, left to the connection layer.
    assert!(!x.has_pending_dial());
    assert_eq!(
        y.on_dial_ready(),
        vec![Action::Dial { peer: x_id.clone(), address: addr(11) }]
    );
}

#[test]
fn scenario_greeting_is_answered_and_the_address_learned() {
    let a1 = addr(1);
    let mut requester = Node::new(peer(1));
    let responder_node = Node::new(peer(2));
    // the node receives the greeting and hands it to its responder
    let mut asked = responder_node.on_request(greeting("hi", a1.clone()));
    assert_eq!(asked.len(), 1);
    let received = match asked.remove(0) {
        Action::InvokeResponder { request } => request,
        other => panic!("unexpected action {:?}", other),
    };
    assert_eq!(received, greeting("hi", a1.clone()));
    let mut responder = Hello;
    let sent = responder_node.serve(&mut responder, received);
    assert_eq!(
        sent,
        vec![Action::SendResponse { response: answer("hello", a1.clone()) }]
    );
    // the requester receives the response
    let got = requester.on_response(peer(2), answer("hello", a1.clone()));
    assert_eq!(
        got,
        vec![
            Action::Report { peer: peer(2), message: "hello".to_string() },
            Action::AddExternalAddress { address: a1.clone() },
        ]
    );
    assert!(requester.addresses().candidates().contains(&a1));
}

#[test]
fn scenario_expired_peer_is_dropped_and_found_again() {
    let mut n = node();
    n.on_discovered(peer(1), addr(1));
    assert_eq!(n.on_dial_ready().len(), 1);
    n.on_connection_established(peer(1), addr(1), Direction::Outbound);
    n.on_connection_established(peer(1), addr(2), Direction::Inbound);
    // the discovery record expires: the node asks for a disconnect
    assert_eq!(
        n.on_expired(peer(1)),
        vec![Action::Disconnect { peer: peer(1), reason: DisconnectReason::DiscoveryExpired }]
    );
    // the connection is reported closed: the peer leaves both maps
    n.on_connection_closed(&peer(1));
    assert!(!n.outbound().contains_key(&peer(1)));
    assert!(!n.inbound().contains_key(&peer(1)));
    assert_eq!(n.on_tick(), vec![]);
    // the peer shows up again: it is new, and dialed again
    assert!(n.on_discovered(peer(1), addr(3)));
    assert!(n.seen().contains(&peer(1)));
    assert_eq!(
        n.on_dial_ready(),
        vec![Action::Dial { peer: peer(1), address: addr(3) }]
    );
}
