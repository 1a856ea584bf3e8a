//! The address on which a node listens.
//!
//! A node listens over QUIC on a port that the system assigns, on the host
//! given at startup or, where none is given, on every host.

use crate::address::{multiaddr_accepts, multiaddr_parse, Address};
use vstd::prelude::*;
use vstd::string::StringExecFns;

verus! {

/// Text before the host in a listen address.
pub const LISTEN_PREFIX: &'static str = "/ip4/";

/// Text after the host in a listen address.
pub const LISTEN_SUFFIX: &'static str = "/udp/0/quic-v1";

/// The host that stands for every host.
pub const WILDCARD_HOST: &'static str = "0.0.0.0";

/// A bind host that gives no multiaddress.
#[derive(Debug)]
pub struct InvalidAddress {
    /// The text that was rejected.
    pub text: String,
}

/// The text of the listen address for an optional bind host.
pub open spec fn listen_text(host: Option<Seq<char>>) -> Seq<char> {
    LISTEN_PREFIX@ + (match host {
        Some(h) => h,
        None => WILDCARD_HOST@,
    }) + LISTEN_SUFFIX@
}

/// The bind host as a sequence of characters.
pub open spec fn host_view(host: Option<&str>) -> Option<Seq<char>> {
    match host {
        Some(h) => Some(h@),
        None => None,
    }
}

/// Writes the text of the listen address for `host`.
pub fn listen_address_text(host: Option<&str>) -> (text: String)
    ensures
        text@ == listen_text(host_view(host)),
{
    let mut text = String::from_str(LISTEN_PREFIX);
    match host {
        Some(h) => text.append(h),
        None => text.append(WILDCARD_HOST),
    }
    text.append(LISTEN_SUFFIX);
    text
}

/// The listen address for `host`, or the rejected text where `host` does
/// not give a multiaddress.
pub fn listen_address(host: Option<&str>) -> (address: Result<Address, InvalidAddress>)
    ensures
        address is Ok <==> (multiaddr_parse(listen_text(host_view(host))) matches Some(b)
            && multiaddr_accepts(b)),
        address matches Ok(a) ==> multiaddr_parse(listen_text(host_view(host))) == Some(a@),
        address matches Err(e) ==> e.text@ == listen_text(host_view(host)),
{
    let text = listen_address_text(host);
    match Address::parse(text.as_str()) {
        Some(address) => Ok(address),
        None => Err(InvalidAddress { text }),
    }
}

} // verus!
