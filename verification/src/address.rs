//! Transport addresses.
//!
//! An [`Address`] holds the binary form of a multiaddress. The node compares
//! addresses by their bytes and shows them by their text; both the check that
//! bytes form a multiaddress and the text itself come from the `multiaddr`
//! implementation that `libp2p` exports.

use libp2p::Multiaddr;
use vstd::prelude::*;
use vstd::std_specs::cmp::PartialEqSpecImpl;

verus! {

/// Whether `Multiaddr::try_from(Vec<u8>)` accepts these bytes as the binary
/// form of a multiaddress.
pub uninterp spec fn multiaddr_accepts(bytes: Seq<u8>) -> bool;

/// The text that `Display for Multiaddr` writes for the multiaddress with
/// these bytes.
pub uninterp spec fn multiaddr_text(bytes: Seq<u8>) -> Seq<char>;

/// What `Multiaddr::from_str` makes of a text: the bytes of the multiaddress
/// it denotes, or `None` where the text is rejected.
pub uninterp spec fn multiaddr_parse(text: Seq<char>) -> Option<Seq<u8>>;

/// Calls `Multiaddr::try_from(Vec<u8>)`, which reads the bytes protocol by
/// protocol, and reports whether it returned `Ok`.
#[verifier::external_body]
fn accepts_bytes(bytes: &Vec<u8>) -> (ok: bool)
    ensures
        ok == multiaddr_accepts(bytes@),
{
    Multiaddr::try_from(bytes.clone()).is_ok()
}

/// Calls `to_string` (`Display for Multiaddr`) on the multiaddress that
/// `Multiaddr::try_from` builds from the bytes. The bytes must be accepted;
/// the formatter then writes each protocol in turn and cannot fail.
#[verifier::external_body]
fn render_bytes(bytes: &Vec<u8>) -> (text: String)
    requires
        multiaddr_accepts(bytes@),
    ensures
        text@ == multiaddr_text(bytes@),
{
    match Multiaddr::try_from(bytes.clone()) {
        Ok(address) => address.to_string(),
        Err(_) => String::new(),
    }
}

/// Calls `str::parse::<Multiaddr>` (`Multiaddr::from_str`) and hands out the
/// bytes of the parsed multiaddress (`Multiaddr::to_vec`), or `None` where
/// the parser returned an error.
#[verifier::external_body]
fn parse_text(text: &str) -> (bytes: Option<Vec<u8>>)
    ensures
        match bytes {
            Some(b) => multiaddr_parse(text@) == Some(b@),
            None => multiaddr_parse(text@) is None,
        },
{
    match text.parse::<Multiaddr>() {
        Ok(address) => Some(address.to_vec()),
        Err(_) => None,
    }
}

/// Transport-level location of a peer.
///
/// Every value holds bytes that form a multiaddress. Its view is that byte
/// string; two addresses are equal exactly when their bytes are.
#[derive(Debug)]
pub struct Address {
    bytes: Vec<u8>,
}

impl View for Address {
    type V = Seq<u8>;

    closed spec fn view(&self) -> Seq<u8> {
        self.bytes@
    }
}

impl Address {
    #[verifier::type_invariant]
    spec fn well_formed(self) -> bool {
        multiaddr_accepts(self.bytes@)
    }

    /// Takes the binary form of a multiaddress; `None` where the bytes are
    /// not one.
    pub fn from_bytes(bytes: Vec<u8>) -> (address: Option<Address>)
        ensures
            address is Some <==> multiaddr_accepts(bytes@),
            address matches Some(a) ==> a@ == bytes@,
    {
        if accepts_bytes(&bytes) {
            Some(Address { bytes })
        } else {
            None
        }
    }

    /// Reads the text form of a multiaddress, such as
    /// `/ip4/127.0.0.1/udp/4001/quic-v1`.
    pub fn parse(text: &str) -> (address: Option<Address>)
        ensures
            address is Some <==> (multiaddr_parse(text@) matches Some(b) && multiaddr_accepts(b)),
            address matches Some(a) ==> multiaddr_parse(text@) == Some(a@),
    {
        match parse_text(text) {
            Some(bytes) => Address::from_bytes(bytes),
            None => None,
        }
    }

    /// The binary form.
    pub fn as_bytes(&self) -> (bytes: &Vec<u8>)
        ensures
            bytes@ == self@,
            multiaddr_accepts(self@),
    {
        proof {
            use_type_invariant(self);
        }
        &self.bytes
    }

    /// The text form.
    pub fn to_text(&self) -> (text: String)
        ensures
            text@ == multiaddr_text(self@),
    {
        proof {
            use_type_invariant(self);
        }
        render_bytes(&self.bytes)
    }

    /// Whether both addresses are the same location.
    pub fn same(&self, other: &Address) -> (r: bool)
        ensures
            r == (self@ == other@),
    {
        let r = self.bytes == other.bytes;
        proof {
            assert(r ==> self.bytes@ =~= other.bytes@);
        }
        r
    }
}

impl Clone for Address {
    fn clone(&self) -> (address: Address)
        ensures
            address@ == self@,
    {
        proof {
            use_type_invariant(self);
        }
        Address { bytes: self.bytes.clone() }
    }
}

impl PartialEq for Address {
    fn eq(&self, other: &Address) -> (r: bool) {
        self.same(other)
    }
}

impl Eq for Address {

}

impl PartialEqSpecImpl for Address {
    open spec fn obeys_eq_spec() -> bool {
        true
    }

    open spec fn eq_spec(&self, other: &Address) -> bool {
        self@ == other@
    }
}

} // verus!
