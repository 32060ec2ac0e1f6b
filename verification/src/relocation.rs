//! The documents that move a node from one section to another.

use vstd::prelude::*;
use crate::crypto::Signature;
use crate::id::PublicId;
use crate::xor_name::XorName;

verus! {

/// The order to relocate: who moves, and to the section of which name.
#[derive(Clone, Copy, Debug, PartialEq, Eq, Structural)]
pub struct RelocateDetails {
    pub pub_id: PublicId,
    pub destination: XorName,
    pub age: u8,
}

/// An order to relocate, signed by the section that issued it.
#[derive(Debug, PartialEq, Eq)]
pub struct SignedRelocateDetails {
    pub content: RelocateDetails,
    pub signature: Signature,
}

impl SignedRelocateDetails {
    /// Returns the order itself.
    pub fn relocate_details(&self) -> (details: RelocateDetails)
        ensures
            details == self.content,
    {
        self.content
    }

    /// Returns the name whose section the node moves to.
    pub fn destination(&self) -> (name: XorName)
        ensures
            name == self.content.destination,
    {
        self.content.destination
    }
}

/// What a relocating node shows to its new section: the signed order, and
/// the new name signed with the old identity, which binds the two.
#[derive(Debug, PartialEq, Eq)]
pub struct RelocatePayload {
    pub details: SignedRelocateDetails,
    pub signature_of_new_name_with_old_id: Signature,
}

/// The model of a `RelocatePayload`: the order, its signature by the
/// section that issued it, and the signature that binds the new name to
/// the old identity.
pub struct RelocatePayloadModel {
    pub details: RelocateDetails,
    pub signature: Seq<u8>,
    pub binding: Seq<u8>,
}

impl View for RelocatePayload {
    type V = RelocatePayloadModel;

    open spec fn view(&self) -> RelocatePayloadModel {
        RelocatePayloadModel {
            details: self.details.content,
            signature: self.details.signature.bytes@,
            binding: self.signature_of_new_name_with_old_id.bytes@,
        }
    }
}

impl RelocatePayload {
    /// Joins the signed order and the binding signature.
    pub fn new(details: SignedRelocateDetails, signature_of_new_name_with_old_id: Signature) -> (payload: RelocatePayload)
        ensures
            payload.details == details,
            payload.signature_of_new_name_with_old_id == signature_of_new_name_with_old_id,
    {
        RelocatePayload { details, signature_of_new_name_with_old_id }
    }
}

} // verus!
