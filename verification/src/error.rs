//! The errors of the router.

use vstd::prelude::*;

verus! {

/// Why the router could not act on an input.
#[derive(Clone, Copy, Debug, PartialEq, Eq, Structural)]
pub enum RoutingError {
    /// A message claims a section as its source where a single node is needed.
    BadLocation,
    /// A message came without the connection it was received on.
    InvalidSource,
    /// A signature does not verify.
    FailedSignature,
    /// A message is signed, but not by keys that this node trusts yet.
    UntrustedMessage,
    /// The node is in a state in which it cannot do what was asked of it.
    InvalidStateForOperation,
    /// The node must adopt a new name, and the identity supplied for it is
    /// missing or lies outside the range that the name must fall in.
    InvalidNewId,
    /// A relocating node needs a proof that binds its old identity to the
    /// new one, and none was supplied.
    MissingRelocationProof,
}

} // verus!
