//! Control logic of a peer-to-peer greeting node: dial de-duplication, the
//! directional connection registry, the protocol compatibility gate, the
//! periodic greeting exchange and the tracking of this node's addresses.
//!
//! The library is a state machine. A [`node::Node`] owns all state; every
//! handler takes one event and returns the actions that the surrounding
//! program has to perform on the network.

pub mod address;
pub mod assoc;
pub mod dial_queue;
pub mod distinct;
pub mod laws;
pub mod listen;
pub mod model;
pub mod node;
pub mod peer;
pub mod peer_map;
pub mod peer_set;
pub mod protocol;
pub mod service;
pub mod tracker;
