//! Where a peer can be reached, and the binding of an identity to it.

use vstd::prelude::*;
use crate::id::PublicId;
use crate::xor_name::XorName;

verus! {

/// A socket address. An IPv4 address is held in its IPv4-mapped IPv6 form.
#[derive(Clone, Copy, Debug, PartialEq, Eq, Structural, Hash)]
pub struct PeerAddr {
    pub ip: u128,
    pub port: u16,
}

/// What is needed to dial a peer. Two of them are equal when their addresses are.
#[derive(Clone, Copy, Debug, PartialEq, Eq, Structural, Hash)]
pub struct ConnectionInfo {
    pub peer_addr: PeerAddr,
}

/// A peer's identity together with the address it is reached at.
#[derive(Clone, Copy, Debug, PartialEq, Eq, Structural, Hash)]
pub struct P2pNode {
    pub public_id: PublicId,
    pub connection_info: ConnectionInfo,
}

impl P2pNode {
    /// Binds an identity to an address.
    pub fn new(public_id: PublicId, connection_info: ConnectionInfo) -> (node: P2pNode)
        ensures
            node == (P2pNode { public_id, connection_info }),
    {
        P2pNode { public_id, connection_info }
    }

    /// Returns the peer's name.
    pub fn name(&self) -> (n: XorName)
        ensures
            n == self.public_id.name,
    {
        self.public_id.name
    }

    /// Returns the peer's address.
    pub fn peer_addr(&self) -> (addr: PeerAddr)
        ensures
            addr == self.connection_info.peer_addr,
    {
        self.connection_info.peer_addr
    }
}

} // verus!
