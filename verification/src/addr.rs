//! Destination addresses as they appear in the Trojan preamble and in UDP
//! frames: a literal IPv4 or IPv6 endpoint, a hostname still to be resolved,
//! or nothing at all (which routes the flow to the configured fallback).

use vstd::prelude::*;

verus! {

/// An IP address as plain bytes, exactly as it travels on the wire.
#[derive(Clone, Copy, Debug, PartialEq, Eq)]
pub enum IpAddress {
    V4([u8; 4]),
    V6([u8; 16]),
}

/// A literal socket endpoint: an IP address and a port.
#[derive(Clone, Copy, Debug, PartialEq, Eq)]
pub struct Endpoint {
    pub ip: IpAddress,
    pub port: u16,
}

/// The destination a client asked for. `Unset` stands for "no usable request":
/// the connection then falls back to the configured default upstream.
#[derive(Debug, PartialEq, Eq)]
pub enum Address {
    Unset,
    Domain(Vec<u8>, u16),
    Socket(Endpoint),
}

/// The mathematical model of an [`Endpoint`]: the family tag, the raw address
/// bytes, and the port.
pub struct EndpointModel {
    pub v4: bool,
    pub ip: Seq<u8>,
    pub port: u16,
}

/// The mathematical model of an [`Address`].
pub enum AddressModel {
    Unset,
    Domain(Seq<u8>, u16),
    Socket(EndpointModel),
}

impl EndpointModel {
    /// The address bytes fit the family tag.
    pub open spec fn wf(self) -> bool {
        self.ip.len() == if self.v4 {
            4int
        } else {
            16int
        }
    }
}

impl IpAddress {
    /// The address bytes as they are written after the ATYP byte.
    pub open spec fn spec_bytes(self) -> Seq<u8> {
        match self {
            IpAddress::V4(b) => b@,
            IpAddress::V6(b) => b@,
        }
    }

    pub open spec fn is_v4(self) -> bool {
        self is V4
    }
}

impl View for Endpoint {
    type V = EndpointModel;

    open spec fn view(&self) -> EndpointModel {
        EndpointModel { v4: self.ip.is_v4(), ip: self.ip.spec_bytes(), port: self.port }
    }
}

impl View for Address {
    type V = AddressModel;

    open spec fn view(&self) -> AddressModel {
        match *self {
            Address::Unset => AddressModel::Unset,
            Address::Domain(name, port) => AddressModel::Domain(name@, port),
            Address::Socket(ep) => AddressModel::Socket(ep@),
        }
    }
}

/// The view of a real endpoint is always well formed: a `V4` address carries
/// four bytes and a `V6` address sixteen.
pub proof fn lemma_endpoint_view_wf(ep: Endpoint)
    ensures
        ep@.wf(),
{
}

impl Endpoint {
    pub fn new(ip: IpAddress, port: u16) -> (r: Endpoint)
        ensures
            r.ip == ip,
            r.port == port,
    {
        Endpoint { ip, port }
    }
}

impl AddressModel {
    /// Whether the address can stand in a preamble: `Unset` cannot, a domain
    /// name must fit its one-byte length field, and a literal endpoint must
    /// carry bytes matching its family.
    pub open spec fn encodable(self) -> bool {
        match self {
            AddressModel::Unset => false,
            AddressModel::Domain(name, _) => name.len() <= 255,
            AddressModel::Socket(ep) => ep.wf(),
        }
    }
}

impl Address {
    /// Whether this address can stand in a preamble.
    pub open spec fn encodable(self) -> bool {
        self@.encodable()
    }
}

/// Returns true exactly when the two byte strings hold the same bytes.
pub fn bytes_eq(a: &[u8], b: &[u8]) -> (r: bool)
    ensures
        r == (a@ == b@),
{
    if a.len() != b.len() {
        assert(a@.len() != b@.len());
        return false;
    }
    let mut i: usize = 0;
    while i < a.len()
        invariant
            i <= a.len(),
            a@.len() == b@.len(),
            forall|j: int| 0 <= j < i ==> a@[j] == b@[j],
        decreases a.len() - i,
    {
        if a[i] != b[i] {
            return false;
        }
        i += 1;
    }
    proof {
        assert(a@ =~= b@);
    }
    true
}

} // verus!
