//! Protocol identity and the two messages of the greeting exchange.

use crate::address::Address;
use vstd::prelude::*;
use vstd::std_specs::cmp::PartialEqSpecImpl;

verus! {

/// Agent and version text advertised during the handshake; informational.
pub const AGENT_VERSION: &'static str = "peer/0.0.1";

/// Protocol identifier, used for the handshake compatibility check and for
/// negotiating the request/response protocol.
pub const PROTOCOL: &'static str = "/foo/1";

/// Seconds between two rounds of greetings.
pub const GREETING_INTERVAL_SECS: u64 = 5;

/// A greeting sent to a connected peer.
#[derive(Debug)]
pub struct GreetRequest {
    pub message: String,
    pub address: Address,
}

/// The answer to a [`GreetRequest`].
#[derive(Debug)]
pub struct GreetResponse {
    pub message: String,
    pub address: Address,
}

/// What a greeting message carries: its text and the bytes of its address.
pub struct Greeting {
    pub message: Seq<char>,
    pub address: Seq<u8>,
}

impl View for GreetRequest {
    type V = Greeting;

    open spec fn view(&self) -> Greeting {
        Greeting { message: self.message@, address: self.address@ }
    }
}

impl View for GreetResponse {
    type V = Greeting;

    open spec fn view(&self) -> Greeting {
        Greeting { message: self.message@, address: self.address@ }
    }
}

impl Clone for GreetRequest {
    fn clone(&self) -> (copy: GreetRequest)
        ensures
            copy@ == self@,
    {
        GreetRequest { message: self.message.clone(), address: self.address.clone() }
    }
}

impl Clone for GreetResponse {
    fn clone(&self) -> (copy: GreetResponse)
        ensures
            copy@ == self@,
    {
        GreetResponse { message: self.message.clone(), address: self.address.clone() }
    }
}

impl PartialEq for GreetRequest {
    fn eq(&self, other: &GreetRequest) -> (r: bool) {
        self.message == other.message && self.address.same(&other.address)
    }
}

impl PartialEqSpecImpl for GreetRequest {
    open spec fn obeys_eq_spec() -> bool {
        true
    }

    open spec fn eq_spec(&self, other: &GreetRequest) -> bool {
        self@ == other@
    }
}

impl PartialEq for GreetResponse {
    fn eq(&self, other: &GreetResponse) -> (r: bool) {
        self.message == other.message && self.address.same(&other.address)
    }
}

impl PartialEqSpecImpl for GreetResponse {
    open spec fn obeys_eq_spec() -> bool {
        true
    }

    open spec fn eq_spec(&self, other: &GreetResponse) -> bool {
        self@ == other@
    }
}

} // verus!
