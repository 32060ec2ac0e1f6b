//! What the router tells the application.

use vstd::prelude::*;
use crate::location::{DstLocation, SrcLocation};
use crate::prefix::Prefix;

verus! {

/// How a node came to be connected to the network.
#[derive(Clone, Copy, Debug, PartialEq, Eq, Structural)]
pub enum Connected {
    /// The node joined the network for the first time.
    First,
    /// The node joined a section that it was relocated to.
    Relocate,
}

/// An event for the application.
#[derive(Debug, PartialEq, Eq)]
pub enum Event {
    /// The node is a member of a section.
    Connected(Connected),
    /// A message for this node has arrived.
    MessageReceived { src: SrcLocation, dst: DstLocation, content: Vec<u8> },
    /// The node's section has split; the prefix is that of the node's half.
    SectionSplit(Prefix),
    /// The node has become an elder of its section.
    Promoted,
    /// The node is no longer an elder of its section.
    Demoted,
    /// The node could not join and has to be started again.
    RestartRequired,
    /// The node has stopped for good. No event follows this one.
    Terminated,
}

} // verus!
