//! Where a message comes from and where it goes.

use vstd::prelude::*;
use crate::error::RoutingError;
use crate::p2p_node::ConnectionInfo;
use crate::prefix::Prefix;
use crate::xor_name::XorName;

verus! {

/// The source of a message.
#[derive(Clone, Copy, Debug, PartialEq, Eq, Structural, Hash)]
pub enum SrcLocation {
    /// A single node.
    Node(XorName),
    /// The section with this prefix.
    Section(Prefix),
}

/// The destination of a message.
#[derive(Clone, Copy, Debug, PartialEq, Eq, Structural, Hash)]
pub enum DstLocation {
    /// The node with this name.
    Node(XorName),
    /// The section that this name belongs to.
    Section(XorName),
    /// Every section whose prefix is compatible with this one.
    PrefixSection(Prefix),
    /// The peer at the other end of the connection: one hop, outside routing.
    Direct,
}

impl SrcLocation {
    /// Returns whether the source is a section.
    pub fn is_section(&self) -> (b: bool)
        ensures
            b == (*self is Section),
    {
        match self {
            SrcLocation::Section(_) => true,
            SrcLocation::Node(_) => false,
        }
    }

    /// What `to_sender` returns.
    pub open spec fn sender_spec(self, sender: Option<ConnectionInfo>) -> Result<(XorName, ConnectionInfo), RoutingError> {
        match self {
            SrcLocation::Section(_) => Err(RoutingError::BadLocation),
            SrcLocation::Node(name) => match sender {
                None => Err(RoutingError::InvalidSource),
                Some(conn_info) => Ok((name, conn_info)),
            },
        }
    }

    /// Returns the single node that sent a message with this source over the
    /// connection `sender`: its name and how to reach it. A section is no
    /// single node, and a message without a connection has no sender.
    pub fn to_sender(&self, sender: Option<ConnectionInfo>) -> (r: Result<(XorName, ConnectionInfo), RoutingError>)
        ensures
            r == self.sender_spec(sender),
    {
        match self {
            SrcLocation::Section(_) => Err(RoutingError::BadLocation),
            SrcLocation::Node(name) => match sender {
                None => Err(RoutingError::InvalidSource),
                Some(conn_info) => Ok((*name, conn_info)),
            },
        }
    }
}

impl DstLocation {
    /// Returns whether the destination is the directly connected peer.
    pub fn is_direct(&self) -> (b: bool)
        ensures
            b == (*self is Direct),
    {
        match self {
            DstLocation::Direct => true,
            _ => false,
        }
    }

    /// A node called `name` in the section `prefix` is among the recipients.
    pub open spec fn contains_spec(self, name: XorName, prefix: Prefix) -> bool {
        match self {
            DstLocation::Node(n) => n == name,
            DstLocation::Section(n) => prefix.matches_spec(n),
            DstLocation::PrefixSection(p) => p.is_compatible_spec(prefix),
            DstLocation::Direct => true,
        }
    }

    /// Returns whether a node called `name` in the section `prefix` is among
    /// the recipients of a message with this destination.
    pub fn contains(&self, name: &XorName, prefix: &Prefix) -> (b: bool)
        ensures
            b == self.contains_spec(*name, *prefix),
    {
        match self {
            DstLocation::Node(n) => *n == *name,
            DstLocation::Section(n) => prefix.matches(n),
            DstLocation::PrefixSection(p) => p.is_compatible(prefix),
            DstLocation::Direct => true,
        }
    }
}

} // verus!
