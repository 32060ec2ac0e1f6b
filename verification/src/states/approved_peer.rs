//! The state of a node that is a member of a section, as an adult or as an
//! elder.

use vstd::prelude::*;
use crate::chain::NetworkParams;
use crate::crypto::Digest256;
use crate::error::RoutingError;
use crate::id::FullId;
use crate::invariants::section_models;
use crate::message_filter::Seen;
use crate::location::SrcLocation;
use crate::messages::{Message, MessageWithBytes, Variant};
use crate::outbox::{Command, Outbox};
use crate::p2p_node::ConnectionInfo;
use crate::peer_map::PeerMap;
use crate::prefix::Prefix;
use crate::relocation::SignedRelocateDetails;
use crate::section_chain::standing_events;
use crate::signature_accumulator::{after_signature, completes, SignatureAccumulator};
use crate::state_machine::{LifecycleConfig, Transition};
use crate::states::bootstrapping_peer::{BootstrappingModel, BootstrappingPeer, BootstrappingPeerDetails};
use crate::xor_name::XorName;
use crate::routing::{route_commands, route_events, route_outcome, Routed};
use crate::routing_message_filter::{RoutingFilterModel, RoutingMessageFilter};
use crate::section_chain::Chain;
use crate::state_machine::Stage;
use crate::timer::Timer;

verus! {

/// The state of a member of a section: what it knows of the network, its
/// identity, its connections, its timer, its message filters and the
/// signatures that it collects.
pub struct ApprovedPeer {
    pub chain: Chain,
    pub full_id: FullId,
    pub peer_map: PeerMap,
    pub timer: Timer,
    pub network_cfg: NetworkParams,
    pub config: LifecycleConfig,
    pub filter: RoutingMessageFilter,
    pub signatures: SignatureAccumulator,
}

impl ApprovedPeer {
    /// The model of the message filters.
    pub open spec fn filter_spec(self) -> RoutingFilterModel {
        self.filter@
    }

    /// The message filters are as they were made.
    pub open spec fn wf(self) -> bool {
        self.filter.wf()
    }

    /// The state in which the node bootstraps again when it is relocated
    /// by the order `details`, before it has asked any contact.
    pub open spec fn as_relocating(self, details: SignedRelocateDetails) -> BootstrappingModel {
        BootstrappingModel {
            pending_requests: Set::empty(),
            timeout_tokens: Map::empty(),
            peers: self.peer_map@,
            next_token: self.timer@,
            full_id: self.full_id,
            relocate_details: Some(details),
            network_cfg: self.network_cfg,
            config: self.config,
        }
    }

    /// Makes the state of a new member, with empty message filters and
    /// without signatures.
    pub fn new(
        chain: Chain,
        full_id: FullId,
        peer_map: PeerMap,
        timer: Timer,
        network_cfg: NetworkParams,
        config: LifecycleConfig,
    ) -> (peer: ApprovedPeer)
        ensures
            peer.wf(),
            peer.filter_spec().valid(),
            peer.filter_spec().outgoing.len() == 0,
            peer.filter_spec().incoming.entries == Map::<Digest256, Seen>::empty(),
            peer.signatures@ == Map::<Digest256, Set<XorName>>::empty(),
            peer.chain == chain,
            peer.full_id == full_id,
            peer.peer_map == peer_map,
            peer.timer == timer,
            peer.network_cfg == network_cfg,
            peer.config == config,
    {
        ApprovedPeer {
            chain,
            full_id,
            peer_map,
            timer,
            network_cfg,
            config,
            filter: RoutingMessageFilter::new(),
            signatures: SignatureAccumulator::new(),
        }
    }

    /// Leaves the section and enters the bootstrapping state, as the order
    /// `details` asks: the node takes its identity, its connections and its
    /// timer along and asks each of the contacts `conn_infos`, the elders of
    /// its future section, where to join.
    pub fn relocate(self, conn_infos: Vec<ConnectionInfo>, details: SignedRelocateDetails, outbox: &mut Outbox) -> (peer:
        BootstrappingPeer)
        ensures
            peer@ == self.as_relocating(details).requested_all(conn_infos@),
            final(outbox).commands@ == old(outbox).commands@ + self.as_relocating(details).request_commands_all(conn_infos@),
            final(outbox).events@ == old(outbox).events@,
    {
        BootstrappingPeer::relocate(
            BootstrappingPeerDetails {
                peer_map: self.peer_map,
                full_id: self.full_id,
                network_cfg: self.network_cfg,
                config: self.config,
                timer: self.timer,
            },
            conn_infos,
            details,
            outbox,
        )
    }

    /// Handles an order to relocate that the section has agreed on, with
    /// the contacts of the section that the node is to move to. An order
    /// for this node makes it relocate; an order for another node is ignored.
    pub fn handle_relocation(&self, details: SignedRelocateDetails, conn_infos: Vec<ConnectionInfo>) -> (t: Transition)
        ensures
            t == (if details.content.pub_id == self.full_id.public_id {
                Transition::Relocate { details, conn_infos }
            } else {
                Transition::Stay
            }),
    {
        if details.content.pub_id == self.full_id.public_id {
            Transition::Relocate { details, conn_infos }
        } else {
            Transition::Stay
        }
    }

    /// Handles a message about the sections of the network. The record of
    /// a neighbouring section and a record of the node's own section are
    /// offered to the chain, which takes them in if they are news and in
    /// keeping with the rules of section membership; the application learns
    /// of a promotion or a demotion. Any other message is left to the
    /// collaborator that it is for.
    pub fn handle_message(&mut self, msg: Message, outbox: &mut Outbox) -> (t: Transition)
        ensures
            t is Stay,
            final(self).chain.elder_size_spec() == old(self).chain.elder_size_spec(),
            final(self).full_id == old(self).full_id,
            final(self).peer_map == old(self).peer_map,
            final(self).timer == old(self).timer,
            final(self).network_cfg == old(self).network_cfg,
            final(self).config == old(self).config,
            final(self).filter == old(self).filter,
            final(self).signatures == old(self).signatures,
            final(outbox).commands@ == old(outbox).commands@,
            final(self).chain@ == (match msg.variant {
                Variant::NeighbourInfo(info) => old(self).chain@.offered_neighbour(info@, old(self).chain.elder_size_spec()),
                Variant::GenesisUpdate(info) => old(self).chain@.offered_our_section(
                    info@,
                    Seq::empty(),
                    old(self).chain.elder_size_spec(),
                ),
                _ => old(self).chain@,
            }),
            final(outbox).events@ == old(outbox).events@ + standing_events(
                old(self).chain@.is_elder,
                final(self).chain@.is_elder,
            ),
    {
        match msg.variant {
            Variant::NeighbourInfo(info) => {
                let _ = self.chain.update_neighbour(info);
                assert(outbox.events@ =~= old(outbox).events@ + standing_events(
                    old(self).chain@.is_elder,
                    self.chain@.is_elder,
                ));
            },
            Variant::GenesisUpdate(info) => {
                let neighbours = Vec::new();
                assert(section_models(neighbours@) =~= Seq::empty());
                let _ = self.chain.update_our_section(info, neighbours, outbox);
            },
            _ => {
                assert(outbox.events@ =~= old(outbox).events@ + standing_events(
                    old(self).chain@.is_elder,
                    self.chain@.is_elder,
                ));
            },
        }
        Transition::Stay
    }

    /// Takes in the signature of `signer` for the message of the section
    /// `src_prefix` with this digest, where `quorum` is the number of the
    /// section's elders that must have signed. Returns whether the message
    /// is complete with this signature, and so can be routed as verified.
    /// The signature is ignored where the node does not know the section,
    /// or the signer is none of its elders.
    pub fn handle_message_signature(&mut self, src_prefix: &Prefix, digest: &Digest256, signer: XorName, quorum: usize) -> (complete:
        bool)
        ensures
            final(self).chain == old(self).chain,
            final(self).full_id == old(self).full_id,
            final(self).peer_map == old(self).peer_map,
            final(self).timer == old(self).timer,
            final(self).filter == old(self).filter,
            old(self).chain@.our_section.prefix != *src_prefix && !old(self).chain@.knows_neighbour(*src_prefix) ==> !complete
                && final(self).signatures@ == old(self).signatures@,
            old(self).chain@.our_section.prefix == *src_prefix ==> complete == completes(
                old(self).signatures@,
                *digest,
                signer,
                old(self).chain@.our_section.elder_set(),
                quorum,
            ) && final(self).signatures@ == after_signature(
                old(self).signatures@,
                *digest,
                signer,
                old(self).chain@.our_section.elder_set(),
                quorum,
            ),
            old(self).chain@.our_section.prefix != *src_prefix && old(self).chain@.knows_neighbour(*src_prefix) ==> complete
                == completes(
                old(self).signatures@,
                *digest,
                signer,
                old(self).chain@.neighbours[old(self).chain@.neighbour_index(*src_prefix)].elder_set(),
                quorum,
            ) && final(self).signatures@ == after_signature(
                old(self).signatures@,
                *digest,
                signer,
                old(self).chain@.neighbours[old(self).chain@.neighbour_index(*src_prefix)].elder_set(),
                quorum,
            ),
    {
        match self.chain.section_info(src_prefix) {
            Some(elders) => self.signatures.add_signature(digest, signer, elders, quorum),
            None => false,
        }
    }

    /// Returns whether a member handles the message: everything is handled
    /// but the answers to a request to bootstrap and the approval of a
    /// request to join.
    pub fn should_handle_message(&self, msg: &Message) -> (b: bool)
        ensures
            b == (!(msg.variant is BootstrapResponse) && !(msg.variant is NodeApproval)),
    {
        Stage::Approved.accepts(&msg.variant)
    }

    /// Handles a request of the application to send a message, which the
    /// host has serialised as `msg`. The source must be the node itself, or
    /// its section if the node is an elder of it; any other source is the
    /// error `BadLocation`, and nothing happens. The message then goes the
    /// way of every routed message: see `Chain::route`.
    pub fn handle_send_message(&mut self, src: SrcLocation, msg: &MessageWithBytes, content: Vec<u8>, now: u64, outbox: &mut Outbox) -> (r:
        Result<Routed, RoutingError>)
        requires
            old(self).wf(),
        ensures
            final(self).wf(),
            final(self).filter_spec().valid() || !old(self).chain@.in_src_location(src),
            final(self).chain == old(self).chain,
            final(self).full_id == old(self).full_id,
            final(self).peer_map == old(self).peer_map,
            final(self).timer == old(self).timer,
            if !old(self).chain@.in_src_location(src) {
                &&& r == Err::<Routed, RoutingError>(RoutingError::BadLocation)
                &&& final(self).filter_spec() == old(self).filter_spec()
                &&& *final(outbox) == *old(outbox)
            } else {
                &&& r matches Ok(routed)
                &&& route_outcome(old(self).chain@, old(self).filter_spec(), msg.dst_spec(), msg.hash_spec(), now) == (
                    routed,
                    final(self).filter_spec(),
                )
                &&& final(outbox).events@ == old(outbox).events@ + route_events(routed, src, msg.dst_spec(), content)
                &&& route_commands(
                    old(outbox).commands@,
                    final(outbox).commands@,
                    old(self).chain@,
                    old(self).filter_spec(),
                    msg.dst_spec(),
                    msg.hash_spec(),
                    now,
                )
            },
    {
        if !self.chain.in_src_location(&src) {
            return Err(RoutingError::BadLocation);
        }
        Ok(self.chain.route(&mut self.filter, msg, src, content, now, outbox))
    }

    /// Routes a message that arrived at the reading `now` of the clock, by
    /// the node's chain and through its filters: see `Chain::route`.
    pub fn handle_routed_message(&mut self, msg: &MessageWithBytes, src: SrcLocation, content: Vec<u8>, now: u64, outbox: &mut Outbox) -> (routed:
        Routed)
        requires
            old(self).wf(),
        ensures
            final(self).wf(),
            final(self).filter_spec().valid(),
            final(self).chain == old(self).chain,
            final(self).full_id == old(self).full_id,
            final(self).peer_map == old(self).peer_map,
            final(self).timer == old(self).timer,
            route_outcome(old(self).chain@, old(self).filter_spec(), msg.dst_spec(), msg.hash_spec(), now) == (
                routed,
                final(self).filter_spec(),
            ),
            final(outbox).events@ == old(outbox).events@ + route_events(routed, src, msg.dst_spec(), content),
            route_commands(
                old(outbox).commands@,
                final(outbox).commands@,
                old(self).chain@,
                old(self).filter_spec(),
                msg.dst_spec(),
                msg.hash_spec(),
                now,
            ),
    {
        self.chain.route(&mut self.filter, msg, src, content, now, outbox)
    }
}

} // verus!
