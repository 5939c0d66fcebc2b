//! Peer records and plain-value views of network addresses.

use vstd::prelude::*;
use crate::ident::NodeId;

verus! {

/// A signed, versioned peer record: identity, advertised IPv4 address and
/// port, a monotonically increasing sequence number, and capability bits.
/// Immutable once issued; a record with a higher sequence number supersedes
/// an older one for the same identity.
#[derive(Clone, Copy, PartialEq, Eq, Structural, Debug)]
pub struct PeerRecord {
    pub id: NodeId,
    pub ip: u32,
    pub port: u16,
    pub seq: u64,
    pub caps: u64,
}

/// Whether record `a` supersedes record `b`: same identity, strictly newer.
pub open spec fn supersedes(a: PeerRecord, b: PeerRecord) -> bool {
    a.id == b.id && a.seq > b.seq
}

/// The /24-equivalent subnet key of an IPv4 address.
pub open spec fn spec_subnet(ip: u32) -> u32 {
    ip >> 8
}

pub fn subnet_of(ip: u32) -> (s: u32)
    ensures
        s == spec_subnet(ip),
{
    ip >> 8
}

/// An IPv4 network range, held as a base address and a prefix length.
#[derive(Clone, Copy, PartialEq, Eq, Structural, Debug)]
pub struct Ipv4Net {
    pub addr: u32,
    pub prefix: u8,
}

impl Ipv4Net {
    pub open spec fn wf(self) -> bool {
        self.prefix <= 32
    }

    /// Whether `ip` lies inside the range: its first `prefix` bits match.
    pub open spec fn spec_contains(self, ip: u32) -> bool {
        if self.prefix == 0 {
            true
        } else {
            (ip >> (32 - self.prefix) as u32) == (self.addr >> (32 - self.prefix) as u32)
        }
    }

    /// A range is valid only with a prefix length of at most 32 bits.
    pub fn new(addr: u32, prefix: u8) -> (r: Option<Ipv4Net>)
        ensures
            prefix <= 32 <==> (r matches Some(n) && n == (Ipv4Net { addr, prefix })),
            prefix > 32 <==> r is None,
    {
        if prefix <= 32 {
            Some(Ipv4Net { addr, prefix })
        } else {
            None
        }
    }

    pub fn contains(&self, ip: u32) -> (b: bool)
        requires
            self.wf(),
        ensures
            b == self.spec_contains(ip),
    {
        if self.prefix == 0 {
            true
        } else {
            let sh: u32 = 32 - self.prefix as u32;
            (ip >> sh) == (self.addr >> sh)
        }
    }
}

} // verus!
