//! Node identities and the XOR distance metric that orders the network.

use vstd::prelude::*;

verus! {

broadcast use vstd::std_specs::bits::axiom_u64_leading_zeros;

/// A node's fixed-length identifier, derived from a hash of its public key.
#[derive(Clone, Copy, PartialEq, Eq, Structural, Debug, Hash)]
pub struct NodeId {
    pub raw: u64,
}

/// The Kademlia metric: the XOR of the two identifiers, read as an integer.
pub open spec fn xor_distance(a: NodeId, b: NodeId) -> u64 {
    a.raw ^ b.raw
}

/// The bit length of the XOR distance: 0 for equal identifiers, up to 64.
/// Peers at bit length `i` share the first `64 - i` identifier bits with us.
pub open spec fn bit_length(d: u64) -> int {
    64 - vstd::std_specs::bits::u64_leading_zeros(d)
}

impl NodeId {
    pub fn new(raw: u64) -> (r: NodeId)
        ensures
            r.raw == raw,
    {
        NodeId { raw }
    }

    /// XOR distance to `other`.
    pub fn distance(self, other: NodeId) -> (d: u64)
        ensures
            d == xor_distance(self, other),
    {
        self.raw ^ other.raw
    }

    /// Bit length of the XOR distance to `other`; zero exactly for `self`.
    pub fn log2_distance(self, other: NodeId) -> (i: usize)
        ensures
            i == bit_length(xor_distance(self, other)),
            i <= 64,
            (i == 0) <==> (self == other),
    {
        let d = self.raw ^ other.raw;
        let lz = d.leading_zeros();
        proof {
            let x = self.raw;
            let y = other.raw;
            assert((x ^ y == 0) <==> (x == y)) by (bit_vector);
        }
        (64 - lz) as usize
    }
}

/// The metric is symmetric.
pub proof fn lemma_distance_symmetric(a: NodeId, b: NodeId)
    ensures
        xor_distance(a, b) == xor_distance(b, a),
{
    let x = a.raw;
    let y = b.raw;
    assert(x ^ y == y ^ x) by (bit_vector);
}

/// The metric is zero exactly between a node and itself.
pub proof fn lemma_distance_zero_iff_equal(a: NodeId, b: NodeId)
    ensures
        (xor_distance(a, b) == 0) <==> (a == b),
{
    let x = a.raw;
    let y = b.raw;
    assert((x ^ y == 0) <==> (x == y)) by (bit_vector);
}

} // verus!
