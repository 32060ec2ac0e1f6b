//! The messages that nodes exchange.

use vstd::prelude::*;
use crate::chain::{EldersInfo, SectionModel};
use crate::crypto::{Digest256, Signature};
use crate::error::RoutingError;
use crate::location::{DstLocation, SrcLocation};
use crate::p2p_node::ConnectionInfo;
use crate::prefix::Prefix;
use crate::relocation::{RelocateDetails, RelocatePayload, RelocatePayloadModel};
use crate::xor_name::XorName;

verus! {

/// The answer to a request to bootstrap.
#[derive(Debug, PartialEq, Eq)]
pub enum BootstrapResponse {
    /// Join the section with these elders.
    Join(EldersInfo),
    /// Ask these peers instead.
    Rebootstrap(Vec<ConnectionInfo>),
}

/// A request to join a section.
#[derive(Debug, PartialEq, Eq)]
pub struct JoinRequest {
    /// The version of the section's elders that the request is addressed to.
    pub elders_version: u64,
    /// The proof of relocation, for a node that joins because it was relocated.
    pub relocate_payload: Option<RelocatePayload>,
}

/// The content of a message.
#[derive(Debug, PartialEq, Eq)]
pub enum Variant {
    /// The elders of a neighbouring section have changed.
    NeighbourInfo(EldersInfo),
    /// A message of the application.
    UserMessage(Vec<u8>),
    /// The section accepts the node that asked to join it.
    NodeApproval(EldersInfo),
    /// A neighbour has seen this version of our section.
    AckMessage { src_prefix: Prefix, ack_version: u64 },
    /// The elders of our own section have changed.
    GenesisUpdate(EldersInfo),
    /// The receiving node is to move to another section.
    Relocate(RelocateDetails),
    /// One section member's signature of a message of the section.
    MessageSignature(Vec<u8>),
    /// A node asks where to join; the name is the one it wants to be close to.
    BootstrapRequest(XorName),
    /// The answer to a `BootstrapRequest`.
    BootstrapResponse(BootstrapResponse),
    /// A node asks to join the section.
    JoinRequest(JoinRequest),
    /// A peer confirms a connection.
    ConnectionResponse,
    /// What the sender knows of the section's and the consensus' versions.
    MemberKnowledge { elders_version: u64, parsec_version: u64 },
    /// A request of the consensus engine, opaque to the router.
    ParsecRequest(u64, Vec<u8>),
    /// A response of the consensus engine, opaque to the router.
    ParsecResponse(u64, Vec<u8>),
}

/// The model of a `BootstrapResponse`.
pub enum BootstrapResponseModel {
    Join(SectionModel),
    Rebootstrap(Seq<ConnectionInfo>),
}

impl View for BootstrapResponse {
    type V = BootstrapResponseModel;

    open spec fn view(&self) -> BootstrapResponseModel {
        match *self {
            BootstrapResponse::Join(info) => BootstrapResponseModel::Join(info@),
            BootstrapResponse::Rebootstrap(conn_infos) => BootstrapResponseModel::Rebootstrap(conn_infos@),
        }
    }
}

/// The model of a `JoinRequest`.
pub struct JoinRequestModel {
    pub elders_version: u64,
    pub relocate_payload: Option<RelocatePayloadModel>,
}

impl View for JoinRequest {
    type V = JoinRequestModel;

    open spec fn view(&self) -> JoinRequestModel {
        JoinRequestModel {
            elders_version: self.elders_version,
            relocate_payload: match self.relocate_payload {
                Some(payload) => Some(payload@),
                None => None,
            },
        }
    }
}

/// The model of a `Variant`.
pub enum VariantModel {
    NeighbourInfo(SectionModel),
    UserMessage(Seq<u8>),
    NodeApproval(SectionModel),
    AckMessage { src_prefix: Prefix, ack_version: u64 },
    GenesisUpdate(SectionModel),
    Relocate(RelocateDetails),
    MessageSignature(Seq<u8>),
    BootstrapRequest(XorName),
    BootstrapResponse(BootstrapResponseModel),
    JoinRequest(JoinRequestModel),
    ConnectionResponse,
    MemberKnowledge { elders_version: u64, parsec_version: u64 },
    ParsecRequest(u64, Seq<u8>),
    ParsecResponse(u64, Seq<u8>),
}

impl View for Variant {
    type V = VariantModel;

    open spec fn view(&self) -> VariantModel {
        match *self {
            Variant::NeighbourInfo(info) => VariantModel::NeighbourInfo(info@),
            Variant::UserMessage(content) => VariantModel::UserMessage(content@),
            Variant::NodeApproval(info) => VariantModel::NodeApproval(info@),
            Variant::AckMessage { src_prefix, ack_version } => VariantModel::AckMessage { src_prefix, ack_version },
            Variant::GenesisUpdate(info) => VariantModel::GenesisUpdate(info@),
            Variant::Relocate(details) => VariantModel::Relocate(details),
            Variant::MessageSignature(content) => VariantModel::MessageSignature(content@),
            Variant::BootstrapRequest(name) => VariantModel::BootstrapRequest(name),
            Variant::BootstrapResponse(response) => VariantModel::BootstrapResponse(response@),
            Variant::JoinRequest(request) => VariantModel::JoinRequest(request@),
            Variant::ConnectionResponse => VariantModel::ConnectionResponse,
            Variant::MemberKnowledge { elders_version, parsec_version } => VariantModel::MemberKnowledge {
                elders_version,
                parsec_version,
            },
            Variant::ParsecRequest(version, content) => VariantModel::ParsecRequest(version, content@),
            Variant::ParsecResponse(version, content) => VariantModel::ParsecResponse(version, content@),
        }
    }
}

/// The model of a `Message`.
pub struct MessageModel {
    pub src: SrcLocation,
    pub dst: DstLocation,
    pub variant: VariantModel,
    pub signatures: Seq<Seq<u8>>,
}

impl View for Message {
    type V = MessageModel;

    open spec fn view(&self) -> MessageModel {
        MessageModel {
            src: self.src,
            dst: self.dst,
            variant: self.variant@,
            signatures: crate::wire::signature_bytes(self.signatures@),
        }
    }
}

/// A message: its source, its destination, its content and the signatures
/// that vouch for it.
#[derive(Debug, PartialEq, Eq)]
pub struct Message {
    pub src: SrcLocation,
    pub dst: DstLocation,
    pub variant: Variant,
    pub signatures: Vec<Signature>,
}

/// A message in its serialised form, with the digest of those bytes.
#[derive(Debug)]
pub struct MessageWithBytes {
    dst: DstLocation,
    full_bytes: Vec<u8>,
    full_crypto_hash: Digest256,
}

impl MessageWithBytes {
    /// The destination of the message.
    pub closed spec fn dst_spec(self) -> DstLocation {
        self.dst
    }

    /// The digest of the serialised message.
    pub closed spec fn hash_spec(self) -> Digest256 {
        self.full_crypto_hash
    }

    /// The serialised message.
    pub closed spec fn bytes_spec(self) -> Seq<u8> {
        self.full_bytes@
    }

    /// Joins the serialised form of a message with its destination and the
    /// digest of the bytes.
    pub fn new(dst: DstLocation, full_bytes: Vec<u8>, full_crypto_hash: Digest256) -> (msg: MessageWithBytes)
        ensures
            msg.dst_spec() == dst,
            msg.bytes_spec() == full_bytes@,
            msg.hash_spec() == full_crypto_hash,
    {
        MessageWithBytes { dst, full_bytes, full_crypto_hash }
    }

    /// Returns the destination of the message.
    pub fn message_dst(&self) -> (dst: &DstLocation)
        ensures
            *dst == self.dst_spec(),
    {
        &self.dst
    }

    /// Returns the digest of the serialised message.
    pub fn full_crypto_hash(&self) -> (hash: &Digest256)
        ensures
            *hash == self.hash_spec(),
    {
        &self.full_crypto_hash
    }

    /// Returns the serialised message.
    pub fn full_bytes(&self) -> (bytes: &Vec<u8>)
        ensures
            bytes@ == self.bytes_spec(),
    {
        &self.full_bytes
    }
}

/// How far the signatures of a message could be verified.
#[derive(Clone, Copy, Debug, PartialEq, Eq, Structural)]
pub enum VerifyStatus {
    /// The message is signed by keys that the node trusts.
    Full,
    /// The signatures hold, but the keys are newer than any the node knows.
    ProofTooNew,
}

impl VerifyStatus {
    /// Returns `Ok` for a fully verified message, and the error
    /// `UntrustedMessage` for any other.
    pub fn require_full(self) -> (r: Result<(), RoutingError>)
        ensures
            r == (match self {
                VerifyStatus::Full => Ok::<(), RoutingError>(()),
                VerifyStatus::ProofTooNew => Err::<(), RoutingError>(RoutingError::UntrustedMessage),
            }),
    {
        match self {
            VerifyStatus::Full => Ok(()),
            VerifyStatus::ProofTooNew => Err(RoutingError::UntrustedMessage),
        }
    }
}

} // verus!
