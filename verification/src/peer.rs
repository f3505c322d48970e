//! Identity of a remote peer.

use vstd::prelude::*;

verus! {

/// Opaque, stable identifier of a peer, derived from its public key. The
/// core never looks inside a peer id: it only compares, orders and hashes
/// them, so the identifier is carried as its raw bits.
#[derive(Debug, Clone, Copy, PartialEq, Eq, Structural, PartialOrd, Ord, Hash)]
pub struct PeerId {
    pub bits: u64,
}

impl PeerId {
    pub fn new(bits: u64) -> (r: Self)
        ensures
            r.bits == bits,
    {
        PeerId { bits }
    }
}

} // verus!
