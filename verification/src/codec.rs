//! Messages on the wire.
//!
//! A message is put on the wire as its frame: source, destination, the tag
//! of its variant, its content and its signatures. This module gives the
//! layout of the content of each variant, and with it the encoding of whole
//! messages. The layout is canonical; all numbers are little-endian.
//!
//! | part             | bytes                                                     |
//! |------------------|-----------------------------------------------------------|
//! | key              | 32                                                        |
//! | address          | 16 for the IP address, 2 for the port                     |
//! | node             | name, key, address                                        |
//! | elders           | prefix, 8 for the version, 8 for the number of nodes, the nodes in the order of their names |
//! | order to relocate | name and key of the node, destination, 1 for the age     |
//! | proof of relocation | order, its signature, the binding signature; each signature with 8 for its length |
//!
//! The content of a variant is made of these:
//!
//! | variant | content |
//! |---|---|
//! | `NeighbourInfo`, `NodeApproval`, `GenesisUpdate` | elders |
//! | `UserMessage`, `MessageSignature` | the bytes as they are |
//! | `AckMessage` | prefix, 8 for the version |
//! | `Relocate` | order to relocate |
//! | `BootstrapRequest` | name |
//! | `BootstrapResponse` | 1 for the kind, then elders (0) or 8 for a number and as many addresses (1) |
//! | `JoinRequest` | 8 for the version, 1 for whether a proof of relocation follows, the proof |
//! | `ConnectionResponse` | nothing |
//! | `MemberKnowledge` | 8 for each of the two versions |
//! | `ParsecRequest`, `ParsecResponse` | 8 for the version, then the bytes as they are |

use vstd::prelude::*;
use vstd::bytes::{
    lemma_auto_spec_u128_to_from_le_bytes,
    lemma_auto_spec_u16_to_from_le_bytes,
    lemma_auto_spec_u64_to_from_le_bytes,
    spec_u128_from_le_bytes,
    spec_u128_to_le_bytes,
    spec_u16_from_le_bytes,
    spec_u16_to_le_bytes,
    spec_u64_to_le_bytes,
    u128_from_le_bytes,
    u128_to_le_bytes,
    u16_from_le_bytes,
    u16_to_le_bytes,
    u64_to_le_bytes,
};
use vstd::slice::slice_subrange;
use crate::chain::{sorted_by_name, EldersInfo, SectionModel};
use crate::crypto::Signature;
use crate::id::{PublicId, PublicKey};
use crate::messages::{
    BootstrapResponse,
    BootstrapResponseModel,
    JoinRequest,
    JoinRequestModel,
    Message,
    MessageModel,
    Variant,
    VariantModel,
};
use crate::p2p_node::{ConnectionInfo, P2pNode, PeerAddr};
use crate::relocation::{RelocateDetails, RelocatePayload, RelocatePayloadModel, SignedRelocateDetails};
use crate::wire::{
    blob_bytes,
    encode_parts,
    frame_bytes,
    holds_at,
    lemma_frame_round_trip,
    lemma_holds_both,
    lemma_parse_blob,
    lemma_parse_name,
    lemma_parse_prefix,
    lemma_parse_u64,
    name_bytes,
    parse_blob,
    parse_frame,
    parse_name,
    parse_prefix,
    parse_u64,
    prefix_bytes,
    put_blob,
    put_bytes,
    put_name,
    copy_of,
    put_prefix,
    read_as,
    read_blob,
    read_name,
    read_prefix,
    read_u64,
    Frame,
    FrameModel,
};

verus! {

impl VariantModel {
    /// The tag of the variant on the wire.
    pub open spec fn tag(self) -> u8 {
        match self {
            VariantModel::NeighbourInfo(_) => 0,
            VariantModel::UserMessage(_) => 1,
            VariantModel::NodeApproval(_) => 2,
            VariantModel::AckMessage { .. } => 3,
            VariantModel::GenesisUpdate(_) => 4,
            VariantModel::Relocate(_) => 5,
            VariantModel::MessageSignature(_) => 6,
            VariantModel::BootstrapRequest(_) => 7,
            VariantModel::BootstrapResponse(_) => 8,
            VariantModel::JoinRequest(_) => 9,
            VariantModel::ConnectionResponse => 10,
            VariantModel::MemberKnowledge { .. } => 11,
            VariantModel::ParsecRequest(..) => 12,
            VariantModel::ParsecResponse(..) => 13,
        }
    }

    /// The content can be put on the wire: the records of elders in it are
    /// those of an `EldersInfo`, its prefixes are well formed, and the
    /// lengths in it fit in 64 bits.
    pub open spec fn valid(self) -> bool {
        match self {
            VariantModel::NeighbourInfo(info) => section_fits(info),
            VariantModel::NodeApproval(info) => section_fits(info),
            VariantModel::GenesisUpdate(info) => section_fits(info),
            VariantModel::AckMessage { src_prefix, .. } => src_prefix.wf(),
            VariantModel::BootstrapResponse(BootstrapResponseModel::Join(info)) => section_fits(info),
            VariantModel::BootstrapResponse(BootstrapResponseModel::Rebootstrap(conn_infos)) => conn_infos.len() <= u64::MAX,
            VariantModel::JoinRequest(request) => match request.relocate_payload {
                Some(payload) => payload.signature.len() <= u64::MAX && payload.binding.len() <= u64::MAX,
                None => true,
            },
            _ => true,
        }
    }
}

/// The record of elders can be put on the wire.
pub open spec fn section_fits(info: SectionModel) -> bool {
    info.valid() && info.members.len() <= u64::MAX
}

impl MessageModel {
    /// The message can be put on the wire.
    pub open spec fn valid(self) -> bool {
        &&& self.variant.valid()
        &&& self.frame().valid()
    }

    /// The frame of the message.
    pub open spec fn frame(self) -> FrameModel {
        FrameModel {
            src: self.src,
            dst: self.dst,
            tag: self.variant.tag(),
            payload: payload_bytes(self.variant),
            signatures: self.signatures,
        }
    }
}

/// The bytes of a key.
pub open spec fn key_bytes(key: PublicKey) -> Seq<u8> {
    spec_u128_to_le_bytes(key.lo) + spec_u128_to_le_bytes(key.hi)
}

/// The bytes of an address.
pub open spec fn addr_bytes(addr: PeerAddr) -> Seq<u8> {
    spec_u128_to_le_bytes(addr.ip) + spec_u16_to_le_bytes(addr.port)
}

/// The bytes of a node.
pub open spec fn node_bytes(node: P2pNode) -> Seq<u8> {
    name_bytes(node.public_id.name) + key_bytes(node.public_id.public_key) + addr_bytes(node.connection_info.peer_addr)
}

/// The bytes of nodes, one after the other.
pub open spec fn nodes_bytes(nodes: Seq<P2pNode>) -> Seq<u8>
    decreases nodes.len(),
{
    if nodes.len() == 0 {
        Seq::empty()
    } else {
        nodes_bytes(nodes.drop_last()) + node_bytes(nodes.last())
    }
}

/// The bytes of addresses, one after the other.
pub open spec fn conns_bytes(conn_infos: Seq<ConnectionInfo>) -> Seq<u8>
    decreases conn_infos.len(),
{
    if conn_infos.len() == 0 {
        Seq::empty()
    } else {
        conns_bytes(conn_infos.drop_last()) + addr_bytes(conn_infos.last().peer_addr)
    }
}

/// The bytes of a record of elders.
pub open spec fn section_bytes(info: SectionModel) -> Seq<u8> {
    prefix_bytes(info.prefix) + spec_u64_to_le_bytes(info.version) + spec_u64_to_le_bytes(info.members.len() as u64)
        + nodes_bytes(info.members)
}

/// The bytes of an order to relocate.
pub open spec fn details_bytes(details: RelocateDetails) -> Seq<u8> {
    name_bytes(details.pub_id.name) + key_bytes(details.pub_id.public_key) + name_bytes(details.destination) + seq![
        details.age,
    ]
}

/// The bytes of a proof of relocation.
pub open spec fn relocation_bytes(payload: RelocatePayloadModel) -> Seq<u8> {
    details_bytes(payload.details) + blob_bytes(payload.signature) + blob_bytes(payload.binding)
}

/// The bytes of the content of a variant.
pub open spec fn payload_bytes(variant: VariantModel) -> Seq<u8> {
    match variant {
        VariantModel::NeighbourInfo(info) => section_bytes(info),
        VariantModel::UserMessage(content) => content,
        VariantModel::NodeApproval(info) => section_bytes(info),
        VariantModel::AckMessage { src_prefix, ack_version } => prefix_bytes(src_prefix) + spec_u64_to_le_bytes(ack_version),
        VariantModel::GenesisUpdate(info) => section_bytes(info),
        VariantModel::Relocate(details) => details_bytes(details),
        VariantModel::MessageSignature(content) => content,
        VariantModel::BootstrapRequest(name) => name_bytes(name),
        VariantModel::BootstrapResponse(BootstrapResponseModel::Join(info)) => seq![0u8] + section_bytes(info),
        VariantModel::BootstrapResponse(BootstrapResponseModel::Rebootstrap(conn_infos)) => seq![1u8] + spec_u64_to_le_bytes(
            conn_infos.len() as u64,
        ) + conns_bytes(conn_infos),
        VariantModel::JoinRequest(request) => spec_u64_to_le_bytes(request.elders_version) + (match request.relocate_payload {
            Some(payload) => seq![1u8] + relocation_bytes(payload),
            None => seq![0u8],
        }),
        VariantModel::ConnectionResponse => Seq::empty(),
        VariantModel::MemberKnowledge { elders_version, parsec_version } => spec_u64_to_le_bytes(elders_version)
            + spec_u64_to_le_bytes(parsec_version),
        VariantModel::ParsecRequest(version, content) => spec_u64_to_le_bytes(version) + content,
        VariantModel::ParsecResponse(version, content) => spec_u64_to_le_bytes(version) + content,
    }
}

/// The bytes of a message: those of its frame.
pub open spec fn message_bytes(message: MessageModel) -> Seq<u8> {
    frame_bytes(message.frame())
}

/// The key that the bytes from `at` on hold, and where it ends.
pub open spec fn parse_key(bytes: Seq<u8>, at: int) -> Option<(PublicKey, int)> {
    if 0 <= at && at + 32 <= bytes.len() {
        Some(
            (
                PublicKey {
                    hi: spec_u128_from_le_bytes(bytes.subrange(at + 16, at + 32)),
                    lo: spec_u128_from_le_bytes(bytes.subrange(at, at + 16)),
                },
                at + 32,
            ),
        )
    } else {
        None
    }
}

/// The address that the bytes from `at` on hold, and where it ends.
pub open spec fn parse_addr(bytes: Seq<u8>, at: int) -> Option<(PeerAddr, int)> {
    if 0 <= at && at + 18 <= bytes.len() {
        Some(
            (
                PeerAddr {
                    ip: spec_u128_from_le_bytes(bytes.subrange(at, at + 16)),
                    port: spec_u16_from_le_bytes(bytes.subrange(at + 16, at + 18)),
                },
                at + 18,
            ),
        )
    } else {
        None
    }
}

/// The node that the bytes from `at` on hold, and where it ends.
pub open spec fn parse_node(bytes: Seq<u8>, at: int) -> Option<(P2pNode, int)> {
    match parse_name(bytes, at) {
        Some((name, after_name)) => match parse_key(bytes, after_name) {
            Some((public_key, after_key)) => match parse_addr(bytes, after_key) {
                Some((peer_addr, end)) => Some(
                    (
                        P2pNode {
                            public_id: PublicId { name, public_key },
                            connection_info: ConnectionInfo { peer_addr },
                        },
                        end,
                    ),
                ),
                None => None,
            },
            None => None,
        },
        None => None,
    }
}

/// The `count` nodes that the bytes from `at` on hold, and where the last ends.
pub open spec fn parse_nodes(bytes: Seq<u8>, at: int, count: nat) -> Option<(Seq<P2pNode>, int)>
    decreases count,
{
    if count == 0 {
        Some((Seq::empty(), at))
    } else {
        match parse_nodes(bytes, at, (count - 1) as nat) {
            Some((nodes, next)) => match parse_node(bytes, next) {
                Some((node, end)) => Some((nodes.push(node), end)),
                None => None,
            },
            None => None,
        }
    }
}

/// The `count` addresses that the bytes from `at` on hold, and where the last ends.
pub open spec fn parse_conns(bytes: Seq<u8>, at: int, count: nat) -> Option<(Seq<ConnectionInfo>, int)>
    decreases count,
{
    if count == 0 {
        Some((Seq::empty(), at))
    } else {
        match parse_conns(bytes, at, (count - 1) as nat) {
            Some((conn_infos, next)) => match parse_addr(bytes, next) {
                Some((peer_addr, end)) => Some((conn_infos.push(ConnectionInfo { peer_addr }), end)),
                None => None,
            },
            None => None,
        }
    }
}

/// The record of elders that the bytes from `at` on hold, and where it
/// ends. The elders must come in the order of their names.
pub open spec fn parse_section(bytes: Seq<u8>, at: int) -> Option<(SectionModel, int)> {
    match parse_prefix(bytes, at) {
        Some((prefix, after_prefix)) => match parse_u64(bytes, after_prefix) {
            Some((version, after_version)) => match parse_u64(bytes, after_version) {
                Some((count, after_count)) => match parse_nodes(bytes, after_count, count as nat) {
                    Some((members, end)) => if sorted_by_name(members) {
                        Some((SectionModel { prefix, version, members }, end))
                    } else {
                        None
                    },
                    None => None,
                },
                None => None,
            },
            None => None,
        },
        None => None,
    }
}

/// The order to relocate that the bytes from `at` on hold, and where it ends.
pub open spec fn parse_details(bytes: Seq<u8>, at: int) -> Option<(RelocateDetails, int)> {
    match parse_name(bytes, at) {
        Some((name, after_name)) => match parse_key(bytes, after_name) {
            Some((public_key, after_key)) => match parse_name(bytes, after_key) {
                Some((destination, after_destination)) => if after_destination < bytes.len() {
                    Some(
                        (
                            RelocateDetails {
                                pub_id: PublicId { name, public_key },
                                destination,
                                age: bytes[after_destination],
                            },
                            after_destination + 1,
                        ),
                    )
                } else {
                    None
                },
                None => None,
            },
            None => None,
        },
        None => None,
    }
}

/// The proof of relocation that the bytes from `at` on hold, and where it ends.
pub open spec fn parse_relocation(bytes: Seq<u8>, at: int) -> Option<(RelocatePayloadModel, int)> {
    match parse_details(bytes, at) {
        Some((details, after_details)) => match parse_blob(bytes, after_details) {
            Some((signature, after_signature)) => match parse_blob(bytes, after_signature) {
                Some((binding, end)) => Some((RelocatePayloadModel { details, signature, binding }, end)),
                None => None,
            },
            None => None,
        },
        None => None,
    }
}

/// What was parsed is all that the bytes hold.
pub open spec fn whole<T>(bytes: Seq<u8>, parsed: Option<(T, int)>) -> Option<T> {
    match parsed {
        Some((value, end)) => if end == bytes.len() {
            Some(value)
        } else {
            None
        },
        None => None,
    }
}

/// The answer to a request to bootstrap that the bytes hold.
pub open spec fn parse_bootstrap_response(bytes: Seq<u8>) -> Option<BootstrapResponseModel> {
    if bytes.len() == 0 {
        None
    } else if bytes[0] == 0 {
        match whole(bytes, parse_section(bytes, 1)) {
            Some(info) => Some(BootstrapResponseModel::Join(info)),
            None => None,
        }
    } else if bytes[0] == 1 {
        match parse_u64(bytes, 1) {
            Some((count, after_count)) => match whole(bytes, parse_conns(bytes, after_count, count as nat)) {
                Some(conn_infos) => Some(BootstrapResponseModel::Rebootstrap(conn_infos)),
                None => None,
            },
            None => None,
        }
    } else {
        None
    }
}

/// The request to join that the bytes hold.
pub open spec fn parse_join_request(bytes: Seq<u8>) -> Option<JoinRequestModel> {
    match parse_u64(bytes, 0) {
        Some((elders_version, after_version)) => if after_version >= bytes.len() {
            None
        } else if bytes[after_version] == 0 {
            if after_version + 1 == bytes.len() {
                Some(JoinRequestModel { elders_version, relocate_payload: None })
            } else {
                None
            }
        } else if bytes[after_version] == 1 {
            match whole(bytes, parse_relocation(bytes, after_version + 1)) {
                Some(payload) => Some(JoinRequestModel { elders_version, relocate_payload: Some(payload) }),
                None => None,
            }
        } else {
            None
        },
        None => None,
    }
}

/// The content of the variant with this tag that the bytes hold.
pub open spec fn parse_payload(tag: u8, bytes: Seq<u8>) -> Option<VariantModel> {
    if tag == 0 {
        match whole(bytes, parse_section(bytes, 0)) {
            Some(info) => Some(VariantModel::NeighbourInfo(info)),
            None => None,
        }
    } else if tag == 1 {
        Some(VariantModel::UserMessage(bytes))
    } else if tag == 2 {
        match whole(bytes, parse_section(bytes, 0)) {
            Some(info) => Some(VariantModel::NodeApproval(info)),
            None => None,
        }
    } else if tag == 3 {
        match parse_prefix(bytes, 0) {
            Some((src_prefix, after_prefix)) => match whole(bytes, parse_u64(bytes, after_prefix)) {
                Some(ack_version) => Some(VariantModel::AckMessage { src_prefix, ack_version }),
                None => None,
            },
            None => None,
        }
    } else if tag == 4 {
        match whole(bytes, parse_section(bytes, 0)) {
            Some(info) => Some(VariantModel::GenesisUpdate(info)),
            None => None,
        }
    } else if tag == 5 {
        match whole(bytes, parse_details(bytes, 0)) {
            Some(details) => Some(VariantModel::Relocate(details)),
            None => None,
        }
    } else if tag == 6 {
        Some(VariantModel::MessageSignature(bytes))
    } else if tag == 7 {
        match whole(bytes, parse_name(bytes, 0)) {
            Some(name) => Some(VariantModel::BootstrapRequest(name)),
            None => None,
        }
    } else if tag == 8 {
        match parse_bootstrap_response(bytes) {
            Some(response) => Some(VariantModel::BootstrapResponse(response)),
            None => None,
        }
    } else if tag == 9 {
        match parse_join_request(bytes) {
            Some(request) => Some(VariantModel::JoinRequest(request)),
            None => None,
        }
    } else if tag == 10 {
        if bytes.len() == 0 {
            Some(VariantModel::ConnectionResponse)
        } else {
            None
        }
    } else if tag == 11 {
        match parse_u64(bytes, 0) {
            Some((elders_version, after_version)) => match whole(bytes, parse_u64(bytes, after_version)) {
                Some(parsec_version) => Some(VariantModel::MemberKnowledge { elders_version, parsec_version }),
                None => None,
            },
            None => None,
        }
    } else if tag == 12 {
        match parse_u64(bytes, 0) {
            Some((version, start)) => Some(VariantModel::ParsecRequest(version, bytes.subrange(start, bytes.len() as int))),
            None => None,
        }
    } else if tag == 13 {
        match parse_u64(bytes, 0) {
            Some((version, start)) => Some(VariantModel::ParsecResponse(version, bytes.subrange(start, bytes.len() as int))),
            None => None,
        }
    } else {
        None
    }
}

/// The message that the bytes hold, if they hold exactly one.
pub open spec fn parse_message(bytes: Seq<u8>) -> Option<MessageModel> {
    match parse_frame(bytes) {
        Some(frame) => match parse_payload(frame.tag, frame.payload) {
            Some(variant) => Some(MessageModel { src: frame.src, dst: frame.dst, variant, signatures: frame.signatures }),
            None => None,
        },
        None => None,
    }
}

/// Bytes hold themselves from their start on.
proof fn lemma_holds_itself(bytes: Seq<u8>)
    ensures
        holds_at(bytes, 0, bytes),
{
    assert(bytes.subrange(0, bytes.len() as int) =~= bytes);
}

proof fn lemma_parse_key(bytes: Seq<u8>, at: int, key: PublicKey)
    requires
        holds_at(bytes, at, key_bytes(key)),
    ensures
        key_bytes(key).len() == 32,
        parse_key(bytes, at) == Some((key, at + 32)),
{
    lemma_auto_spec_u128_to_from_le_bytes();
    lemma_holds_both(bytes, at, spec_u128_to_le_bytes(key.lo), spec_u128_to_le_bytes(key.hi));
}

proof fn lemma_parse_addr(bytes: Seq<u8>, at: int, addr: PeerAddr)
    requires
        holds_at(bytes, at, addr_bytes(addr)),
    ensures
        addr_bytes(addr).len() == 18,
        parse_addr(bytes, at) == Some((addr, at + 18)),
{
    lemma_auto_spec_u128_to_from_le_bytes();
    lemma_auto_spec_u16_to_from_le_bytes();
    lemma_holds_both(bytes, at, spec_u128_to_le_bytes(addr.ip), spec_u16_to_le_bytes(addr.port));
}

proof fn lemma_parse_node(bytes: Seq<u8>, at: int, node: P2pNode)
    requires
        holds_at(bytes, at, node_bytes(node)),
    ensures
        node_bytes(node).len() == 82,
        parse_node(bytes, at) == Some((node, at + 82)),
{
    let name = name_bytes(node.public_id.name);
    let key = key_bytes(node.public_id.public_key);
    let addr = addr_bytes(node.connection_info.peer_addr);
    assert(node_bytes(node) =~= name + (key + addr));
    lemma_holds_both(bytes, at, name, key + addr);
    lemma_parse_name(bytes, at, node.public_id.name);
    lemma_holds_both(bytes, at + 32, key, addr);
    lemma_parse_key(bytes, at + 32, node.public_id.public_key);
    lemma_parse_addr(bytes, at + 64, node.connection_info.peer_addr);
}

proof fn lemma_parse_nodes(bytes: Seq<u8>, at: int, nodes: Seq<P2pNode>)
    requires
        holds_at(bytes, at, nodes_bytes(nodes)),
    ensures
        parse_nodes(bytes, at, nodes.len()) == Some((nodes, at + nodes_bytes(nodes).len())),
    decreases nodes.len(),
{
    if nodes.len() > 0 {
        let head = nodes.drop_last();
        lemma_holds_both(bytes, at, nodes_bytes(head), node_bytes(nodes.last()));
        lemma_parse_nodes(bytes, at, head);
        lemma_parse_node(bytes, at + nodes_bytes(head).len(), nodes.last());
    }
}

proof fn lemma_parse_conns(bytes: Seq<u8>, at: int, conn_infos: Seq<ConnectionInfo>)
    requires
        holds_at(bytes, at, conns_bytes(conn_infos)),
    ensures
        parse_conns(bytes, at, conn_infos.len()) == Some((conn_infos, at + conns_bytes(conn_infos).len())),
    decreases conn_infos.len(),
{
    if conn_infos.len() > 0 {
        let head = conn_infos.drop_last();
        lemma_holds_both(bytes, at, conns_bytes(head), addr_bytes(conn_infos.last().peer_addr));
        lemma_parse_conns(bytes, at, head);
        lemma_parse_addr(bytes, at + conns_bytes(head).len(), conn_infos.last().peer_addr);
    }
}

proof fn lemma_parse_section(bytes: Seq<u8>, at: int, info: SectionModel)
    requires
        section_fits(info),
        holds_at(bytes, at, section_bytes(info)),
    ensures
        parse_section(bytes, at) == Some((info, at + section_bytes(info).len())),
{
    let prefix = prefix_bytes(info.prefix);
    let version = spec_u64_to_le_bytes(info.version);
    let count = spec_u64_to_le_bytes(info.members.len() as u64);
    let members = nodes_bytes(info.members);
    assert(section_bytes(info) =~= prefix + (version + (count + members)));
    lemma_holds_both(bytes, at, prefix, version + (count + members));
    lemma_parse_prefix(bytes, at, info.prefix);
    lemma_holds_both(bytes, at + 34, version, count + members);
    lemma_parse_u64(bytes, at + 34, info.version);
    lemma_holds_both(bytes, at + 42, count, members);
    lemma_parse_u64(bytes, at + 42, info.members.len() as u64);
    lemma_parse_nodes(bytes, at + 50, info.members);
}

proof fn lemma_parse_details(bytes: Seq<u8>, at: int, details: RelocateDetails)
    requires
        holds_at(bytes, at, details_bytes(details)),
    ensures
        details_bytes(details).len() == 97,
        parse_details(bytes, at) == Some((details, at + 97)),
{
    let name = name_bytes(details.pub_id.name);
    let key = key_bytes(details.pub_id.public_key);
    let destination = name_bytes(details.destination);
    let age = seq![details.age];
    assert(details_bytes(details) =~= name + (key + (destination + age)));
    lemma_holds_both(bytes, at, name, key + (destination + age));
    lemma_parse_name(bytes, at, details.pub_id.name);
    lemma_holds_both(bytes, at + 32, key, destination + age);
    lemma_parse_key(bytes, at + 32, details.pub_id.public_key);
    lemma_holds_both(bytes, at + 64, destination, age);
    lemma_parse_name(bytes, at + 64, details.destination);
    assert(bytes[at + 96] == bytes.subrange(at + 96, at + 97)[0]);
}

proof fn lemma_parse_relocation(bytes: Seq<u8>, at: int, payload: RelocatePayloadModel)
    requires
        payload.signature.len() <= u64::MAX,
        payload.binding.len() <= u64::MAX,
        holds_at(bytes, at, relocation_bytes(payload)),
    ensures
        parse_relocation(bytes, at) == Some((payload, at + relocation_bytes(payload).len())),
{
    let details = details_bytes(payload.details);
    let signature = blob_bytes(payload.signature);
    let binding = blob_bytes(payload.binding);
    assert(relocation_bytes(payload) =~= details + (signature + binding));
    lemma_holds_both(bytes, at, details, signature + binding);
    lemma_parse_details(bytes, at, payload.details);
    lemma_holds_both(bytes, at + 97, signature, binding);
    lemma_parse_blob(bytes, at + 97, payload.signature);
    lemma_parse_blob(bytes, at + 97 + signature.len(), payload.binding);
}

/// Decoding undoes encoding for the content of every variant.
pub proof fn lemma_payload_round_trip(variant: VariantModel)
    requires
        variant.valid(),
    ensures
        parse_payload(variant.tag(), payload_bytes(variant)) == Some(variant),
{
    let bytes = payload_bytes(variant);
    lemma_holds_itself(bytes);
    lemma_auto_spec_u64_to_from_le_bytes();
    match variant {
        VariantModel::NeighbourInfo(info) => {
            lemma_parse_section(bytes, 0, info);
        },
        VariantModel::UserMessage(_) => {},
        VariantModel::NodeApproval(info) => {
            lemma_parse_section(bytes, 0, info);
        },
        VariantModel::AckMessage { src_prefix, ack_version } => {
            lemma_holds_both(bytes, 0, prefix_bytes(src_prefix), spec_u64_to_le_bytes(ack_version));
            lemma_parse_prefix(bytes, 0, src_prefix);
            lemma_parse_u64(bytes, 34, ack_version);
        },
        VariantModel::GenesisUpdate(info) => {
            lemma_parse_section(bytes, 0, info);
        },
        VariantModel::Relocate(details) => {
            lemma_parse_details(bytes, 0, details);
        },
        VariantModel::MessageSignature(_) => {},
        VariantModel::BootstrapRequest(name) => {
            lemma_parse_name(bytes, 0, name);
        },
        VariantModel::BootstrapResponse(BootstrapResponseModel::Join(info)) => {
            lemma_holds_both(bytes, 0, seq![0u8], section_bytes(info));
            assert(bytes[0] == bytes.subrange(0, 1)[0]);
            lemma_parse_section(bytes, 1, info);
        },
        VariantModel::BootstrapResponse(BootstrapResponseModel::Rebootstrap(conn_infos)) => {
            let count = spec_u64_to_le_bytes(conn_infos.len() as u64);
            assert(bytes =~= seq![1u8] + (count + conns_bytes(conn_infos)));
            lemma_holds_both(bytes, 0, seq![1u8], count + conns_bytes(conn_infos));
            lemma_holds_both(bytes, 1, count, conns_bytes(conn_infos));
            lemma_parse_u64(bytes, 1, conn_infos.len() as u64);
            lemma_parse_conns(bytes, 9, conn_infos);
        },
        VariantModel::JoinRequest(request) => {
            let version = spec_u64_to_le_bytes(request.elders_version);
            match request.relocate_payload {
                Some(payload) => {
                    let rest = seq![1u8] + relocation_bytes(payload);
                    lemma_holds_both(bytes, 0, version, rest);
                    lemma_parse_u64(bytes, 0, request.elders_version);
                    lemma_holds_both(bytes, 8, seq![1u8], relocation_bytes(payload));
                    lemma_parse_relocation(bytes, 9, payload);
                },
                None => {
                    lemma_holds_both(bytes, 0, version, seq![0u8]);
                    lemma_parse_u64(bytes, 0, request.elders_version);
                },
            }
        },
        VariantModel::ConnectionResponse => {},
        VariantModel::MemberKnowledge { elders_version, parsec_version } => {
            lemma_holds_both(bytes, 0, spec_u64_to_le_bytes(elders_version), spec_u64_to_le_bytes(parsec_version));
            lemma_parse_u64(bytes, 0, elders_version);
            lemma_parse_u64(bytes, 8, parsec_version);
        },
        VariantModel::ParsecRequest(version, content) => {
            lemma_holds_both(bytes, 0, spec_u64_to_le_bytes(version), content);
            lemma_parse_u64(bytes, 0, version);
            assert(bytes.subrange(8, bytes.len() as int) =~= content);
        },
        VariantModel::ParsecResponse(version, content) => {
            lemma_holds_both(bytes, 0, spec_u64_to_le_bytes(version), content);
            lemma_parse_u64(bytes, 0, version);
        },
    }
}

/// Decoding undoes encoding: the bytes of a message that can be put on the
/// wire hold that message and no other.
pub proof fn lemma_message_round_trip(message: MessageModel)
    requires
        message.valid(),
    ensures
        parse_message(message_bytes(message)) == Some(message),
{
    lemma_frame_round_trip(message.frame());
    lemma_payload_round_trip(message.variant);
}

/// Adds the bytes of a number of 64 bits to the end of `out`.
fn put_u64(out: &mut Vec<u8>, x: u64)
    ensures
        final(out)@ == old(out)@ + spec_u64_to_le_bytes(x),
{
    let mut bytes = u64_to_le_bytes(x);
    out.append(&mut bytes);
}

/// Adds the bytes of a key to the end of `out`.
fn put_key(out: &mut Vec<u8>, key: &PublicKey)
    ensures
        final(out)@ == old(out)@ + key_bytes(*key),
{
    let mut lo = u128_to_le_bytes(key.lo);
    let mut hi = u128_to_le_bytes(key.hi);
    out.append(&mut lo);
    out.append(&mut hi);
}

/// Adds the bytes of an address to the end of `out`.
fn put_addr(out: &mut Vec<u8>, addr: &PeerAddr)
    ensures
        final(out)@ == old(out)@ + addr_bytes(*addr),
{
    let mut ip = u128_to_le_bytes(addr.ip);
    let mut port = u16_to_le_bytes(addr.port);
    out.append(&mut ip);
    out.append(&mut port);
}

/// Adds the bytes of a node to the end of `out`.
fn put_node(out: &mut Vec<u8>, node: &P2pNode)
    ensures
        final(out)@ == old(out)@ + node_bytes(*node),
{
    put_name(out, &node.public_id.name);
    put_key(out, &node.public_id.public_key);
    put_addr(out, &node.connection_info.peer_addr);
}

/// Adds the bytes of a record of elders to the end of `out`.
fn put_section(out: &mut Vec<u8>, info: &EldersInfo)
    ensures
        final(out)@ == old(out)@ + section_bytes(info@),
        section_fits(info@),
{
    put_prefix(out, &info.prefix());
    put_u64(out, info.version());
    let members = info.members();
    put_u64(out, members.len() as u64);
    let ghost head = out@;
    assert(head =~= old(out)@ + (prefix_bytes(info@.prefix) + spec_u64_to_le_bytes(info@.version) + spec_u64_to_le_bytes(
        info@.members.len() as u64,
    )));
    let mut i: usize = 0;
    while i < members.len()
        invariant
            i <= members@.len(),
            out@ == head + nodes_bytes(members@.take(i as int)),
        decreases members@.len() - i,
    {
        proof {
            assert(members@.take(i + 1).drop_last() =~= members@.take(i as int));
        }
        put_node(out, &members[i]);
        i = i + 1;
    }
    assert(members@.take(members@.len() as int) =~= members@);
}

/// Adds the bytes of an order to relocate to the end of `out`.
fn put_details(out: &mut Vec<u8>, details: &RelocateDetails)
    ensures
        final(out)@ == old(out)@ + details_bytes(*details),
{
    put_name(out, &details.pub_id.name);
    put_key(out, &details.pub_id.public_key);
    put_name(out, &details.destination);
    out.push(details.age);
}

/// Adds the bytes of a proof of relocation to the end of `out`.
fn put_relocation(out: &mut Vec<u8>, payload: &RelocatePayload)
    ensures
        final(out)@ == old(out)@ + relocation_bytes(payload@),
        payload@.signature.len() <= u64::MAX,
        payload@.binding.len() <= u64::MAX,
{
    put_details(out, &payload.details.content);
    put_blob(out, &payload.details.signature.bytes);
    put_blob(out, &payload.signature_of_new_name_with_old_id.bytes);
    assert(payload.details.signature.bytes.len() <= usize::MAX);
    assert(payload.signature_of_new_name_with_old_id.bytes.len() <= usize::MAX);
}

/// Returns the content of a variant in its form on the wire. The bytes
/// decode to the content.
pub fn encode_payload(variant: &Variant) -> (bytes: Vec<u8>)
    ensures
        bytes@ == payload_bytes(variant@),
        variant@.valid(),
        parse_payload(variant.tag_spec(), bytes@) == Some(variant@),
{
    let mut out: Vec<u8> = Vec::new();
    match variant {
        Variant::NeighbourInfo(info) => {
            put_section(&mut out, info);
        },
        Variant::UserMessage(content) => {
            put_bytes(&mut out, content);
        },
        Variant::NodeApproval(info) => {
            put_section(&mut out, info);
        },
        Variant::AckMessage { src_prefix, ack_version } => {
            put_prefix(&mut out, src_prefix);
            put_u64(&mut out, *ack_version);
        },
        Variant::GenesisUpdate(info) => {
            put_section(&mut out, info);
        },
        Variant::Relocate(details) => {
            put_details(&mut out, details);
        },
        Variant::MessageSignature(content) => {
            put_bytes(&mut out, content);
        },
        Variant::BootstrapRequest(name) => {
            put_name(&mut out, name);
        },
        Variant::BootstrapResponse(BootstrapResponse::Join(info)) => {
            out.push(0);
            put_section(&mut out, info);
        },
        Variant::BootstrapResponse(BootstrapResponse::Rebootstrap(conn_infos)) => {
            out.push(1);
            put_u64(&mut out, conn_infos.len() as u64);
            let ghost head = out@;
            let mut i: usize = 0;
            while i < conn_infos.len()
                invariant
                    i <= conn_infos@.len(),
                    out@ == head + conns_bytes(conn_infos@.take(i as int)),
                decreases conn_infos@.len() - i,
            {
                proof {
                    assert(conn_infos@.take(i + 1).drop_last() =~= conn_infos@.take(i as int));
                }
                put_addr(&mut out, &conn_infos[i].peer_addr);
                i = i + 1;
            }
            assert(conn_infos@.take(conn_infos@.len() as int) =~= conn_infos@);
        },
        Variant::JoinRequest(request) => {
            put_u64(&mut out, request.elders_version);
            match &request.relocate_payload {
                Some(payload) => {
                    out.push(1);
                    put_relocation(&mut out, payload);
                },
                None => {
                    out.push(0);
                },
            }
        },
        Variant::ConnectionResponse => {},
        Variant::MemberKnowledge { elders_version, parsec_version } => {
            put_u64(&mut out, *elders_version);
            put_u64(&mut out, *parsec_version);
        },
        Variant::ParsecRequest(version, content) => {
            put_u64(&mut out, *version);
            put_bytes(&mut out, content);
        },
        Variant::ParsecResponse(version, content) => {
            put_u64(&mut out, *version);
            put_bytes(&mut out, content);
        },
    }
    proof {
        lemma_payload_round_trip(variant@);
    }
    out
}

/// Reads a key at `at`.
fn read_key(bytes: &[u8], at: usize) -> (r: Option<(PublicKey, usize)>)
    ensures
        read_as(r, parse_key(bytes@, at as int)),
        r matches Some((_, end)) ==> end <= bytes@.len(),
{
    if bytes.len() < 32 || at > bytes.len() - 32 {
        return None;
    }
    let lo = u128_from_le_bytes(slice_subrange(bytes, at, at + 16));
    let hi = u128_from_le_bytes(slice_subrange(bytes, at + 16, at + 32));
    Some((PublicKey { hi, lo }, at + 32))
}

/// Reads an address at `at`.
fn read_addr(bytes: &[u8], at: usize) -> (r: Option<(PeerAddr, usize)>)
    ensures
        read_as(r, parse_addr(bytes@, at as int)),
        r matches Some((_, end)) ==> end <= bytes@.len(),
{
    if bytes.len() < 18 || at > bytes.len() - 18 {
        return None;
    }
    let ip = u128_from_le_bytes(slice_subrange(bytes, at, at + 16));
    let port = u16_from_le_bytes(slice_subrange(bytes, at + 16, at + 18));
    Some((PeerAddr { ip, port }, at + 18))
}

/// Reads a node at `at`.
fn read_node(bytes: &[u8], at: usize) -> (r: Option<(P2pNode, usize)>)
    ensures
        read_as(r, parse_node(bytes@, at as int)),
        r matches Some((_, end)) ==> end <= bytes@.len(),
{
    let (name, after_name) = match read_name(bytes, at) {
        Some(read) => read,
        None => {
            return None;
        },
    };
    let (public_key, after_key) = match read_key(bytes, after_name) {
        Some(read) => read,
        None => {
            return None;
        },
    };
    match read_addr(bytes, after_key) {
        Some((peer_addr, end)) => Some(
            (P2pNode { public_id: PublicId { name, public_key }, connection_info: ConnectionInfo { peer_addr } }, end),
        ),
        None => None,
    }
}

/// Where the first `n` nodes cannot be read, no more than `n` can.
proof fn lemma_parse_nodes_fails_on(bytes: Seq<u8>, at: int, n: nat, count: nat)
    requires
        n <= count,
        parse_nodes(bytes, at, n) is None,
    ensures
        parse_nodes(bytes, at, count) is None,
    decreases count,
{
    if n < count {
        lemma_parse_nodes_fails_on(bytes, at, n, (count - 1) as nat);
    }
}

/// Where the first `n` addresses cannot be read, no more than `n` can.
proof fn lemma_parse_conns_fails_on(bytes: Seq<u8>, at: int, n: nat, count: nat)
    requires
        n <= count,
        parse_conns(bytes, at, n) is None,
    ensures
        parse_conns(bytes, at, count) is None,
    decreases count,
{
    if n < count {
        lemma_parse_conns_fails_on(bytes, at, n, (count - 1) as nat);
    }
}

/// Reads `count` nodes at `at`.
fn read_nodes(bytes: &[u8], at: usize, count: u64) -> (r: Option<(Vec<P2pNode>, usize)>)
    requires
        at <= bytes@.len(),
    ensures
        match (r, parse_nodes(bytes@, at as int, count as nat)) {
            (Some((nodes, end)), Some((held, held_end))) => nodes@ == held && end == held_end && end <= bytes@.len(),
            (None, None) => true,
            _ => false,
        },
{
    let mut nodes: Vec<P2pNode> = Vec::new();
    let mut next: usize = at;
    let mut i: u64 = 0;
    while i < count
        invariant
            i <= count,
            next <= bytes@.len(),
            parse_nodes(bytes@, at as int, i as nat) == Some((nodes@, next as int)),
        decreases count - i,
    {
        match read_node(bytes, next) {
            Some((node, end)) => {
                nodes.push(node);
                next = end;
            },
            None => {
                proof {
                    lemma_parse_nodes_fails_on(bytes@, at as int, (i + 1) as nat, count as nat);
                }
                return None;
            },
        }
        i = i + 1;
    }
    Some((nodes, next))
}

/// Reads `count` addresses at `at`.
fn read_conns(bytes: &[u8], at: usize, count: u64) -> (r: Option<(Vec<ConnectionInfo>, usize)>)
    requires
        at <= bytes@.len(),
    ensures
        match (r, parse_conns(bytes@, at as int, count as nat)) {
            (Some((conn_infos, end)), Some((held, held_end))) => conn_infos@ == held && end == held_end && end
                <= bytes@.len(),
            (None, None) => true,
            _ => false,
        },
{
    let mut conn_infos: Vec<ConnectionInfo> = Vec::new();
    let mut next: usize = at;
    let mut i: u64 = 0;
    while i < count
        invariant
            i <= count,
            next <= bytes@.len(),
            parse_conns(bytes@, at as int, i as nat) == Some((conn_infos@, next as int)),
        decreases count - i,
    {
        match read_addr(bytes, next) {
            Some((peer_addr, end)) => {
                conn_infos.push(ConnectionInfo { peer_addr });
                next = end;
            },
            None => {
                proof {
                    lemma_parse_conns_fails_on(bytes@, at as int, (i + 1) as nat, count as nat);
                }
                return None;
            },
        }
        i = i + 1;
    }
    Some((conn_infos, next))
}

/// Reads a record of elders at `at`.
fn read_section(bytes: &[u8], at: usize) -> (r: Option<(EldersInfo, usize)>)
    ensures
        match (r, parse_section(bytes@, at as int)) {
            (Some((info, end)), Some((held, held_end))) => info@ == held && end == held_end && end <= bytes@.len(),
            (None, None) => true,
            _ => false,
        },
{
    let (prefix, after_prefix) = match read_prefix(bytes, at) {
        Some(read) => read,
        None => {
            return None;
        },
    };
    let (version, after_version) = match read_u64(bytes, after_prefix) {
        Some(read) => read,
        None => {
            return None;
        },
    };
    let (count, after_count) = match read_u64(bytes, after_version) {
        Some(read) => read,
        None => {
            return None;
        },
    };
    let (members, end) = match read_nodes(bytes, after_count, count) {
        Some(read) => read,
        None => {
            return None;
        },
    };
    match EldersInfo::from_sorted(members, prefix, version) {
        Some(info) => Some((info, end)),
        None => None,
    }
}

/// Reads an order to relocate at `at`.
fn read_details(bytes: &[u8], at: usize) -> (r: Option<(RelocateDetails, usize)>)
    ensures
        read_as(r, parse_details(bytes@, at as int)),
        r matches Some((_, end)) ==> end <= bytes@.len(),
{
    let (name, after_name) = match read_name(bytes, at) {
        Some(read) => read,
        None => {
            return None;
        },
    };
    let (public_key, after_key) = match read_key(bytes, after_name) {
        Some(read) => read,
        None => {
            return None;
        },
    };
    let (destination, after_destination) = match read_name(bytes, after_key) {
        Some(read) => read,
        None => {
            return None;
        },
    };
    if after_destination >= bytes.len() {
        return None;
    }
    Some(
        (
            RelocateDetails { pub_id: PublicId { name, public_key }, destination, age: bytes[after_destination] },
            after_destination + 1,
        ),
    )
}

/// Reads a proof of relocation at `at`.
fn read_relocation(bytes: &[u8], at: usize) -> (r: Option<(RelocatePayload, usize)>)
    ensures
        match (r, parse_relocation(bytes@, at as int)) {
            (Some((payload, end)), Some((held, held_end))) => payload@ == held && end == held_end && end <= bytes@.len(),
            (None, None) => true,
            _ => false,
        },
{
    let (content, after_details) = match read_details(bytes, at) {
        Some(read) => read,
        None => {
            return None;
        },
    };
    let (signature, after_signature) = match read_blob(bytes, after_details) {
        Some(read) => read,
        None => {
            return None;
        },
    };
    match read_blob(bytes, after_signature) {
        Some((binding, end)) => Some(
            (
                RelocatePayload {
                    details: SignedRelocateDetails { content, signature: Signature { bytes: signature } },
                    signature_of_new_name_with_old_id: Signature { bytes: binding },
                },
                end,
            ),
        ),
        None => None,
    }
}

/// Reads the content of an answer to a request to bootstrap.
fn decode_bootstrap_response(bytes: &[u8]) -> (r: Option<BootstrapResponse>)
    ensures
        match parse_bootstrap_response(bytes@) {
            Some(held) => r matches Some(response) && response@ == held,
            None => r is None,
        },
{
    if bytes.len() == 0 {
        return None;
    }
    if bytes[0] == 0 {
        match read_section(bytes, 1) {
            Some((info, end)) => if end == bytes.len() {
                Some(BootstrapResponse::Join(info))
            } else {
                None
            },
            None => None,
        }
    } else if bytes[0] == 1 {
        let (count, after_count) = match read_u64(bytes, 1) {
            Some(read) => read,
            None => {
                return None;
            },
        };
        match read_conns(bytes, after_count, count) {
            Some((conn_infos, end)) => if end == bytes.len() {
                Some(BootstrapResponse::Rebootstrap(conn_infos))
            } else {
                None
            },
            None => None,
        }
    } else {
        None
    }
}

/// Reads the content of a request to join.
fn decode_join_request(bytes: &[u8]) -> (r: Option<JoinRequest>)
    ensures
        match parse_join_request(bytes@) {
            Some(held) => r matches Some(request) && request@ == held,
            None => r is None,
        },
{
    let (elders_version, after_version) = match read_u64(bytes, 0) {
        Some(read) => read,
        None => {
            return None;
        },
    };
    if after_version >= bytes.len() {
        return None;
    }
    if bytes[after_version] == 0 {
        if after_version + 1 == bytes.len() {
            Some(JoinRequest { elders_version, relocate_payload: None })
        } else {
            None
        }
    } else if bytes[after_version] == 1 {
        match read_relocation(bytes, after_version + 1) {
            Some((payload, end)) => if end == bytes.len() {
                Some(JoinRequest { elders_version, relocate_payload: Some(payload) })
            } else {
                None
            },
            None => None,
        }
    } else {
        None
    }
}

/// Reads a record of elders that is all that the bytes hold.
fn decode_section(bytes: &[u8]) -> (r: Option<EldersInfo>)
    ensures
        match whole(bytes@, parse_section(bytes@, 0)) {
            Some(held) => r matches Some(info) && info@ == held,
            None => r is None,
        },
{
    match read_section(bytes, 0) {
        Some((info, end)) => if end == bytes.len() {
            Some(info)
        } else {
            None
        },
        None => None,
    }
}

/// Returns the content of the variant with this tag that the bytes hold,
/// if they hold exactly that.
pub fn decode_payload(tag: u8, bytes: &[u8]) -> (r: Option<Variant>)
    ensures
        match parse_payload(tag, bytes@) {
            Some(held) => r matches Some(variant) && variant@ == held && variant.tag_spec() == tag,
            None => r is None,
        },
{
    if tag == 0 {
        match decode_section(bytes) {
            Some(info) => Some(Variant::NeighbourInfo(info)),
            None => None,
        }
    } else if tag == 1 {
        let content = copy_of(bytes, 0, bytes.len());
        assert(content@ =~= bytes@);
        Some(Variant::UserMessage(content))
    } else if tag == 2 {
        match decode_section(bytes) {
            Some(info) => Some(Variant::NodeApproval(info)),
            None => None,
        }
    } else if tag == 3 {
        let (src_prefix, after_prefix) = match read_prefix(bytes, 0) {
            Some(read) => read,
            None => {
                return None;
            },
        };
        match read_u64(bytes, after_prefix) {
            Some((ack_version, end)) => if end == bytes.len() {
                Some(Variant::AckMessage { src_prefix, ack_version })
            } else {
                None
            },
            None => None,
        }
    } else if tag == 4 {
        match decode_section(bytes) {
            Some(info) => Some(Variant::GenesisUpdate(info)),
            None => None,
        }
    } else if tag == 5 {
        match read_details(bytes, 0) {
            Some((details, end)) => if end == bytes.len() {
                Some(Variant::Relocate(details))
            } else {
                None
            },
            None => None,
        }
    } else if tag == 6 {
        let content = copy_of(bytes, 0, bytes.len());
        assert(content@ =~= bytes@);
        Some(Variant::MessageSignature(content))
    } else if tag == 7 {
        match read_name(bytes, 0) {
            Some((name, end)) => if end == bytes.len() {
                Some(Variant::BootstrapRequest(name))
            } else {
                None
            },
            None => None,
        }
    } else if tag == 8 {
        match decode_bootstrap_response(bytes) {
            Some(response) => Some(Variant::BootstrapResponse(response)),
            None => None,
        }
    } else if tag == 9 {
        match decode_join_request(bytes) {
            Some(request) => Some(Variant::JoinRequest(request)),
            None => None,
        }
    } else if tag == 10 {
        if bytes.len() == 0 {
            Some(Variant::ConnectionResponse)
        } else {
            None
        }
    } else if tag == 11 {
        let (elders_version, after_version) = match read_u64(bytes, 0) {
            Some(read) => read,
            None => {
                return None;
            },
        };
        match read_u64(bytes, after_version) {
            Some((parsec_version, end)) => if end == bytes.len() {
                Some(Variant::MemberKnowledge { elders_version, parsec_version })
            } else {
                None
            },
            None => None,
        }
    } else if tag == 12 {
        match read_u64(bytes, 0) {
            Some((version, start)) => Some(Variant::ParsecRequest(version, copy_of(bytes, start, bytes.len()))),
            None => None,
        }
    } else if tag == 13 {
        match read_u64(bytes, 0) {
            Some((version, start)) => Some(Variant::ParsecResponse(version, copy_of(bytes, start, bytes.len()))),
            None => None,
        }
    } else {
        None
    }
}

impl Message {
    /// Returns the message that the bytes hold, if they hold exactly one.
    pub fn decode(bytes: &[u8]) -> (r: Option<Message>)
        ensures
            match parse_message(bytes@) {
                Some(held) => r matches Some(message) && message@ == held,
                None => r is None,
            },
    {
        let frame = match Frame::decode(bytes) {
            Some(frame) => frame,
            None => {
                return None;
            },
        };
        let Frame { src, dst, tag, payload, signatures } = frame;
        match decode_payload(tag, payload.as_slice()) {
            Some(variant) => Some(Message { src, dst, variant, signatures }),
            None => None,
        }
    }

    /// Returns the message in its form on the wire. The bytes decode to
    /// the message.
    pub fn encode(&self) -> (bytes: Vec<u8>)
        ensures
            bytes@ == message_bytes(self@),
            self@.valid(),
            parse_message(bytes@) == Some(self@),
    {
        let payload = encode_payload(&self.variant);
        let tag = self.variant.tag();
        let bytes = encode_parts(&self.src, &self.dst, tag, &payload, &self.signatures);
        proof {
            lemma_message_round_trip(self@);
        }
        bytes
    }
}

} // verus!
