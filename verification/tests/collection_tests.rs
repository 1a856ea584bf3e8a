use greet_node::address::Address;
use greet_node::dial_queue::DialQueue;
use greet_node::peer::PeerId;
use greet_node::peer_map::PeerMap;
use greet_node::peer_set::PeerSet;
use greet_node::tracker::{AddressPool, AddressTracker};

fn coll_peer(n: u8) -> PeerId {
    PeerId::from_bytes(vec![0, 1, n])
}

fn coll_addr(port: u16) -> Address {
    Address::parse(&format!("/ip4/10.0.0.1/udp/{}/quic-v1", port)).expect("a multiaddress")
}

#[test]
fn peer_set_insert_contains_remove() {
    let mut s = PeerSet::new();
    assert_eq!(s.len(), 0);
    assert!(!s.contains(&coll_peer(1)));
    assert!(s.insert(coll_peer(1)));
    assert!(s.insert(coll_peer(2)));
    assert!(!s.insert(coll_peer(1)));
    assert_eq!(s.len(), 2);
    assert!(s.contains(&coll_peer(1)));
    assert!(s.contains(&coll_peer(2)));
    assert!(!s.contains(&coll_peer(3)));
    assert!(s.remove(&coll_peer(1)));
    assert!(!s.remove(&coll_peer(1)));
    assert_eq!(s.len(), 1);
    assert!(!s.contains(&coll_peer(1)));
    assert!(s.contains(&coll_peer(2)));
}

#[test]
fn peer_map_insert_overwrites_in_place() {
    let mut m = PeerMap::new();
    assert_eq!(m.len(), 0);
    assert!(m.insert(coll_peer(1), coll_addr(1)).is_none());
    assert!(m.insert(coll_peer(2), coll_addr(2)).is_none());
    assert_eq!(m.insert(coll_peer(1), coll_addr(3)), Some(coll_addr(1)));
    assert_eq!(m.len(), 2);
    assert_eq!(m.get(&coll_peer(1)), Some(&coll_addr(3)));
    assert_eq!(m.get(&coll_peer(2)), Some(&coll_addr(2)));
    assert_eq!(m.get(&coll_peer(3)), None);
    // the first peer keeps its place
    assert_eq!(m.entry(0), Some((&coll_peer(1), &coll_addr(3))));
    assert_eq!(m.entry(1), Some((&coll_peer(2), &coll_addr(2))));
    assert_eq!(m.entry(2), None);
}

#[test]
fn peer_map_remove_closes_the_gap() {
    let mut m = PeerMap::new();
    m.insert(coll_peer(1), coll_addr(1));
    m.insert(coll_peer(2), coll_addr(2));
    m.insert(coll_peer(3), coll_addr(3));
    assert_eq!(m.remove(&coll_peer(2)), Some(coll_addr(2)));
    assert_eq!(m.remove(&coll_peer(2)), None);
    assert_eq!(m.len(), 2);
    assert!(m.contains_key(&coll_peer(1)));
    assert!(!m.contains_key(&coll_peer(2)));
    assert!(m.contains_key(&coll_peer(3)));
    assert_eq!(m.entry(0), Some((&coll_peer(1), &coll_addr(1))));
    assert_eq!(m.entry(1), Some((&coll_peer(3), &coll_addr(3))));
    let copy = m.clone();
    assert_eq!(copy.len(), 2);
    assert_eq!(copy.entry(1), Some((&coll_peer(3), &coll_addr(3))));
}

#[test]
fn dial_queue_is_first_in_first_out() {
    let mut q = DialQueue::new();
    assert!(q.is_empty());
    assert_eq!(q.pop(), None);
    q.push(coll_peer(1), coll_addr(1));
    q.push(coll_peer(2), coll_addr(2));
    q.push(coll_peer(1), coll_addr(3));
    assert_eq!(q.len(), 3);
    assert!(!q.is_empty());
    assert_eq!(q.pop(), Some((coll_peer(1), coll_addr(1))));
    assert_eq!(q.pop(), Some((coll_peer(2), coll_addr(2))));
    assert_eq!(q.pop(), Some((coll_peer(1), coll_addr(3))));
    assert_eq!(q.pop(), None);
    assert!(q.is_empty());
}

#[test]
fn address_pool_holds_each_address_once() {
    let mut p = AddressPool::new();
    assert_eq!(p.len(), 0);
    assert!(p.insert(coll_addr(1)));
    assert!(p.insert(coll_addr(2)));
    assert!(!p.insert(coll_addr(1)));
    assert_eq!(p.len(), 2);
    assert!(p.contains(&coll_addr(1)));
    assert!(p.contains(&coll_addr(2)));
    assert!(!p.contains(&coll_addr(3)));
    assert_eq!(p.get(0), Some(&coll_addr(1)));
    assert_eq!(p.get(1), Some(&coll_addr(2)));
    assert_eq!(p.get(2), None);
}

#[test]
fn tracker_overwrites_the_primary_address() {
    let mut t = AddressTracker::new();
    assert_eq!(t.primary(), None);
    t.on_new_listen_address(coll_addr(1));
    assert_eq!(t.primary(), Some(&coll_addr(1)));
    t.on_external_address_confirmed(coll_addr(2));
    assert_eq!(t.primary(), Some(&coll_addr(2)));
    t.on_new_listen_address(coll_addr(3));
    assert_eq!(t.primary(), Some(&coll_addr(3)));
    assert_eq!(t.candidates().len(), 0);
}

#[test]
fn tracker_learns_candidates_without_touching_the_primary_address() {
    let mut t = AddressTracker::new();
    t.on_new_listen_address(coll_addr(1));
    assert!(t.on_candidate_learned(coll_addr(7)));
    assert!(!t.on_candidate_learned(coll_addr(7)));
    assert!(t.on_candidate_learned(coll_addr(8)));
    assert_eq!(t.primary(), Some(&coll_addr(1)));
    assert_eq!(t.candidates().len(), 2);
    assert!(t.candidates().contains(&coll_addr(7)));
    assert!(t.candidates().contains(&coll_addr(8)));
    assert!(!t.candidates().contains(&coll_addr(1)));
}
