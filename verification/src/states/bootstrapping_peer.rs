//! The state of a node that looks for the section it is to join.
//!
//! The node asks contacts where to join. Each contact it has asked is
//! pending until it answers, fails or runs out of time; a timeout token is
//! held for each. An answer either names the section to join or other
//! contacts to ask.
//!
//! The model of the state is a `BootstrappingModel`. Every handler is a
//! function of the model and its input: the contracts give the model after
//! the step, what was added to the outbox, and the transition.

use vstd::prelude::*;
use std::collections::HashMap;
use crate::chain::{EldersInfo, NetworkParams};
use crate::crypto::Signature;
use crate::error::RoutingError;
use crate::event::Event;
use crate::id::FullId;
use crate::location::{DstLocation, SrcLocation};
use crate::messages::{BootstrapResponse, Message, MessageWithBytes, Variant, VerifyStatus};
use crate::outbox::{Command, Outbox};
use crate::p2p_node::{ConnectionInfo, PeerAddr};
use crate::peer_map::{AddrSet, PeerMap};
use crate::prefix::{bits_match, Prefix};
use crate::relocation::{RelocatePayload, SignedRelocateDetails};
use crate::state_machine::{LifecycleConfig, Stage, State, Transition};
use crate::states::joining_peer::{asks_to_join, JoiningPeer, JoiningPeerDetails};
use crate::timer::{token_after, Timer};
use crate::xor_name::XorName;

verus! {

broadcast use vstd::std_specs::hash::group_hash_axioms;

/// Time after which a request to bootstrap is given up, in milliseconds.
pub const BOOTSTRAP_TIMEOUT: u64 = 20_000;

/// The number of bits by which the name of a joining node must match its
/// destination beyond the prefix of the section, so that the name still
/// belongs with the destination after the section has split that many times.
pub const EXTRA_SPLIT_COUNT: usize = 3;

/// What a node takes along into the bootstrapping state.
pub struct BootstrappingPeerDetails {
    pub peer_map: PeerMap,
    pub full_id: FullId,
    pub network_cfg: NetworkParams,
    pub config: LifecycleConfig,
    pub timer: Timer,
}

/// What the host supplies for joining a section: a freshly drawn identity,
/// for a node that has to change its name, and for a relocating node the
/// signature of its new name with its old identity.
pub struct JoinMaterial {
    pub new_full_id: Option<FullId>,
    pub relocation_proof: Option<Signature>,
}

/// What joining a section takes: the range that the name of a new identity
/// must fall in, where the node has to change its name, and whether a proof
/// of relocation is needed.
pub struct JoinRequirements {
    pub name_range: Option<Prefix>,
    pub needs_relocation_proof: bool,
}

/// The bits `bits` followed by the next `extra` bits of `name`: those at the
/// positions from the length of `bits` on, as far as a name has that many.
pub open spec fn extended_towards(bits: Seq<bool>, name: XorName, extra: int) -> Seq<bool> {
    Seq::new(
        if bits.len() + extra <= 256 {
            (bits.len() + extra) as nat
        } else if bits.len() <= 256 {
            256
        } else {
            bits.len()
        },
        |j: int|
            if j < bits.len() {
                bits[j]
            } else {
                name.bit_at(j)
            },
    )
}

/// The model of a bootstrapping node.
pub struct BootstrappingModel {
    /// The contacts that were asked and have not answered yet.
    pub pending_requests: Set<PeerAddr>,
    /// The contact that each live timeout token stands for.
    pub timeout_tokens: Map<u64, PeerAddr>,
    /// The peers that the node is connected to.
    pub peers: Set<PeerAddr>,
    /// The token that the timer hands out next.
    pub next_token: u64,
    /// The identity of the node.
    pub full_id: FullId,
    /// The order to relocate, if the node bootstraps because of one.
    pub relocate_details: Option<SignedRelocateDetails>,
    /// The sizes of the network.
    pub network_cfg: NetworkParams,
    /// The choices of the host.
    pub config: LifecycleConfig,
}

impl BootstrappingModel {
    /// The name of the node.
    pub open spec fn name(self) -> XorName {
        self.full_id.public_id.name
    }

    /// The name whose section the node asks for: where it is relocated to, or
    /// else its own name.
    pub open spec fn destination(self) -> XorName {
        match self.relocate_details {
            Some(details) => details.content.destination,
            None => self.name(),
        }
    }

    /// The state after the contact `dst` was asked, unless it is pending already.
    pub open spec fn requested(self, dst: ConnectionInfo) -> BootstrappingModel {
        if self.pending_requests.contains(dst.peer_addr) {
            self
        } else {
            BootstrappingModel {
                pending_requests: self.pending_requests.insert(dst.peer_addr),
                timeout_tokens: self.timeout_tokens.insert(self.next_token, dst.peer_addr),
                peers: self.peers.insert(dst.peer_addr),
                next_token: token_after(self.next_token),
                ..self
            }
        }
    }

    /// The commands that ask the contact `dst`: none if it is pending already.
    pub open spec fn request_commands(self, dst: ConnectionInfo) -> Seq<Command> {
        if self.pending_requests.contains(dst.peer_addr) {
            Seq::empty()
        } else {
            seq![
                Command::Schedule { token: self.next_token, duration: BOOTSTRAP_TIMEOUT },
                Command::SendDirect { dst, variant: Variant::BootstrapRequest(self.destination()) },
            ]
        }
    }

    /// The state after the contacts `dsts` were asked, one after the other.
    pub open spec fn requested_all(self, dsts: Seq<ConnectionInfo>) -> BootstrappingModel
        decreases dsts.len(),
    {
        if dsts.len() == 0 {
            self
        } else {
            self.requested_all(dsts.drop_last()).requested(dsts.last())
        }
    }

    /// The commands that ask the contacts `dsts`, one after the other.
    pub open spec fn request_commands_all(self, dsts: Seq<ConnectionInfo>) -> Seq<Command>
        decreases dsts.len(),
    {
        if dsts.len() == 0 {
            Seq::empty()
        } else {
            self.request_commands_all(dsts.drop_last()) + self.requested_all(dsts.drop_last()).request_commands(
                dsts.last(),
            )
        }
    }

    /// The commands after a request has failed: the transport is asked to
    /// bootstrap again once no contact is pending.
    pub open spec fn retry_commands(self) -> Seq<Command> {
        if self.pending_requests == Set::<PeerAddr>::empty() {
            seq![Command::Bootstrap]
        } else {
            Seq::empty()
        }
    }

    /// The token stands for a contact that is still pending.
    pub open spec fn is_due(self, token: u64) -> bool {
        self.timeout_tokens.contains_key(token) && self.pending_requests.contains(self.timeout_tokens[token])
    }

    /// The state after the timeout `token` has fired.
    pub open spec fn timed_out(self, token: u64) -> BootstrappingModel {
        if self.is_due(token) {
            BootstrappingModel {
                pending_requests: self.pending_requests.remove(self.timeout_tokens[token]),
                timeout_tokens: self.timeout_tokens.remove(token),
                peers: self.peers.remove(self.timeout_tokens[token]),
                ..self
            }
        } else {
            BootstrappingModel { timeout_tokens: self.timeout_tokens.remove(token), ..self }
        }
    }

    /// The commands after the timeout `token` has fired.
    pub open spec fn timeout_commands(self, token: u64) -> Seq<Command> {
        if self.is_due(token) {
            seq![Command::Disconnect(self.timeout_tokens[token])] + self.timed_out(token).retry_commands()
        } else {
            Seq::empty()
        }
    }

    /// The state after the connection to `addr` has failed.
    pub open spec fn connection_failed(self, addr: PeerAddr) -> BootstrappingModel {
        BootstrappingModel {
            pending_requests: self.pending_requests.remove(addr),
            peers: self.peers.remove(addr),
            ..self
        }
    }

    /// The state after the node has dropped every contact, before it asks new ones.
    pub open spec fn dropped_all(self) -> BootstrappingModel {
        BootstrappingModel {
            pending_requests: Set::empty(),
            timeout_tokens: Map::empty(),
            peers: Set::empty(),
            ..self
        }
    }

    /// The bits that the name of the node must start with to join the
    /// section `prefix`: those of the prefix, followed by the next three
    /// bits of the destination, as far as a name has that many.
    pub open spec fn join_range(self, prefix: Prefix) -> Seq<bool> {
        extended_towards(prefix@, self.destination(), EXTRA_SPLIT_COUNT as int)
    }

    /// The node has to change its name to join the section `prefix`.
    pub open spec fn needs_new_name(self, prefix: Prefix) -> bool {
        !bits_match(self.join_range(prefix), self.name())
    }

    /// Why the node cannot join the section `prefix` with what the host
    /// supplied, if it cannot.
    pub open spec fn join_error(self, prefix: Prefix, material: JoinMaterial) -> Option<RoutingError> {
        if self.needs_new_name(prefix) && !(material.new_full_id matches Some(id) && bits_match(
            self.join_range(prefix),
            id.public_id.name,
        )) {
            Some(RoutingError::InvalidNewId)
        } else if self.relocate_details is Some && material.relocation_proof is None {
            Some(RoutingError::MissingRelocationProof)
        } else {
            None
        }
    }

    /// The state in which the node leaves for the section `prefix`.
    pub open spec fn joined(self, prefix: Prefix, material: JoinMaterial) -> BootstrappingModel {
        BootstrappingModel {
            full_id: if self.needs_new_name(prefix) {
                material.new_full_id->0
            } else {
                self.full_id
            },
            relocate_details: None,
            ..self
        }
    }

    /// The state after the node has tried to join the section `prefix`. A
    /// node that lacks a fitting new identity stays as it was. Any other
    /// node has the name under which it joins and has given up its order to
    /// relocate, also where the proof that goes with the order is missing.
    pub open spec fn after_join(self, prefix: Prefix, material: JoinMaterial) -> BootstrappingModel {
        if self.join_error(prefix, material) == Some(RoutingError::InvalidNewId) {
            self
        } else {
            self.joined(prefix, material)
        }
    }

    /// The name under which a node joins a section lies in that section,
    /// and matches the destination in the three bits after the section's
    /// prefix, as far as a name has that many.
    pub proof fn lemma_joined_name_in_section(self, prefix: Prefix, material: JoinMaterial)
        requires
            self.join_error(prefix, material) != Some(RoutingError::InvalidNewId),
        ensures
            bits_match(self.join_range(prefix), self.joined(prefix, material).name()),
            prefix.matches_spec(self.joined(prefix, material).name()),
            forall|j: int|
                prefix@.len() <= j < prefix@.len() + EXTRA_SPLIT_COUNT && j < 256 ==> self.joined(
                    prefix,
                    material,
                ).name().bit_at(j) == self.destination().bit_at(j),
    {
        let range = self.join_range(prefix);
        let name = self.joined(prefix, material).name();
        assert forall|j: int| 0 <= j < prefix@.len() implies #[trigger] prefix@[j] == name.bit_at(j) by {
            assert(range[j] == prefix@[j]);
        }
        assert forall|j: int| prefix@.len() <= j < prefix@.len() + EXTRA_SPLIT_COUNT && j < 256 implies name.bit_at(j)
            == self.destination().bit_at(j) by {
            assert(range[j] == self.destination().bit_at(j));
        }
    }

    /// The proof of relocation that the node takes to its new section.
    pub open spec fn join_payload(self, material: JoinMaterial) -> Option<RelocatePayload> {
        match self.relocate_details {
            Some(details) => Some(
                RelocatePayload { details, signature_of_new_name_with_old_id: material.relocation_proof->0 },
            ),
            None => None,
        }
    }
}

/// State of a node while bootstrapping.
pub struct BootstrappingPeer {
    pending_requests: AddrSet,
    timeout_tokens: HashMap<u64, PeerAddr>,
    peer_map: PeerMap,
    full_id: FullId,
    timer: Timer,
    relocate_details: Option<SignedRelocateDetails>,
    network_cfg: NetworkParams,
    config: LifecycleConfig,
}

impl View for BootstrappingPeer {
    type V = BootstrappingModel;

    closed spec fn view(&self) -> BootstrappingModel {
        BootstrappingModel {
            pending_requests: self.pending_requests@,
            timeout_tokens: self.timeout_tokens@,
            peers: self.peer_map@,
            next_token: self.timer@,
            full_id: self.full_id,
            relocate_details: self.relocate_details,
            network_cfg: self.network_cfg,
            config: self.config,
        }
    }
}

impl BootstrappingPeer {
    /// Enters the bootstrapping state and asks the transport to bootstrap.
    pub fn new(details: BootstrappingPeerDetails, outbox: &mut Outbox) -> (peer: BootstrappingPeer)
        ensures
            peer@ == (BootstrappingModel {
                pending_requests: Set::empty(),
                timeout_tokens: Map::empty(),
                peers: details.peer_map@,
                next_token: details.timer@,
                full_id: details.full_id,
                relocate_details: None,
                network_cfg: details.network_cfg,
                config: details.config,
            }),
            final(outbox).commands@ == old(outbox).commands@.push(Command::Bootstrap),
            final(outbox).events@ == old(outbox).events@,
    {
        outbox.send_command(Command::Bootstrap);
        BootstrappingPeer {
            peer_map: details.peer_map,
            full_id: details.full_id,
            timer: details.timer,
            pending_requests: AddrSet::new(),
            timeout_tokens: HashMap::new(),
            relocate_details: None,
            network_cfg: details.network_cfg,
            config: details.config,
        }
    }

    /// Enters the bootstrapping state for a node that is being relocated
    /// into another section, and asks each of the contacts `conn_infos`
    /// where to join.
    pub fn relocate(
        details: BootstrappingPeerDetails,
        conn_infos: Vec<ConnectionInfo>,
        relocate_details: SignedRelocateDetails,
        outbox: &mut Outbox,
    ) -> (peer: BootstrappingPeer)
        ensures
            peer@ == (BootstrappingModel {
                pending_requests: Set::empty(),
                timeout_tokens: Map::empty(),
                peers: details.peer_map@,
                next_token: details.timer@,
                full_id: details.full_id,
                relocate_details: Some(relocate_details),
                network_cfg: details.network_cfg,
                config: details.config,
            }).requested_all(conn_infos@),
            final(outbox).commands@ == old(outbox).commands@ + (BootstrappingModel {
                pending_requests: Set::empty(),
                timeout_tokens: Map::empty(),
                peers: details.peer_map@,
                next_token: details.timer@,
                full_id: details.full_id,
                relocate_details: Some(relocate_details),
                network_cfg: details.network_cfg,
                config: details.config,
            }).request_commands_all(conn_infos@),
            final(outbox).events@ == old(outbox).events@,
    {
        let mut node = BootstrappingPeer {
            peer_map: details.peer_map,
            full_id: details.full_id,
            timer: details.timer,
            pending_requests: AddrSet::new(),
            timeout_tokens: HashMap::new(),
            relocate_details: Some(relocate_details),
            network_cfg: details.network_cfg,
            config: details.config,
        };
        node.send_bootstrap_requests(&conn_infos, outbox);
        node
    }

    /// Leaves for the joining state with the elders of the section to join
    /// and the proof of relocation, if there is one. The joining state
    /// schedules its timeout and sends the requests to join.
    pub fn into_joining(self, elders_info: EldersInfo, relocate_payload: Option<RelocatePayload>, outbox: &mut Outbox) -> (r:
        Result<State, RoutingError>)
        ensures
            r matches Ok(State::JoiningPeer(peer)) && peer.join_token_spec() == self@.next_token
                && peer.next_token_spec() == token_after(self@.next_token) && peer.relocating_spec() == (
            relocate_payload is Some) && peer.config_spec() == self@.config && peer.elders_info_spec() == elders_info
                && peer.full_id_spec() == self@.full_id && peer.peers_spec() == self@.peers && peer.network_cfg_spec()
                == self@.network_cfg,
            final(outbox).events@ == old(outbox).events@,
            asks_to_join(old(outbox).commands@, final(outbox).commands@, self@.next_token, elders_info, relocate_payload),
    {
        let details = JoiningPeerDetails {
            peer_map: self.peer_map,
            full_id: self.full_id,
            network_cfg: self.network_cfg,
            config: self.config,
            timer: self.timer,
            elders_info,
            relocate_payload,
        };
        Ok(State::JoiningPeer(JoiningPeer::new(details, outbox)))
    }

    /// Asks the contact `dst` where to join, unless it is pending already:
    /// schedules the timeout of the request, sends the request and records
    /// the connection.
    fn send_bootstrap_request(&mut self, dst: ConnectionInfo, outbox: &mut Outbox)
        ensures
            final(self)@ == old(self)@.requested(dst),
            final(outbox).commands@ == old(outbox).commands@ + old(self)@.request_commands(dst),
            final(outbox).events@ == old(outbox).events@,
    {
        if !self.pending_requests.insert(dst.peer_addr) {
            assert(self@.pending_requests =~= old(self)@.pending_requests);
            return;
        }
        let token = self.timer.schedule(BOOTSTRAP_TIMEOUT);
        outbox.send_command(Command::Schedule { token, duration: BOOTSTRAP_TIMEOUT });
        let _ = self.timeout_tokens.insert(token, dst.peer_addr);
        let destination = self.get_destination();
        outbox.send_command(Command::SendDirect { dst, variant: Variant::BootstrapRequest(destination) });
        self.peer_map.connect(dst);
    }

    /// Asks each of the contacts `dsts` where to join, in order.
    fn send_bootstrap_requests(&mut self, dsts: &Vec<ConnectionInfo>, outbox: &mut Outbox)
        ensures
            final(self)@ == old(self)@.requested_all(dsts@),
            final(outbox).commands@ == old(outbox).commands@ + old(self)@.request_commands_all(dsts@),
            final(outbox).events@ == old(outbox).events@,
    {
        let ghost start = self@;
        let ghost sent = outbox.commands@;
        let mut i: usize = 0;
        while i < dsts.len()
            invariant
                i <= dsts@.len(),
                self@ == start.requested_all(dsts@.take(i as int)),
                outbox.commands@ == sent + start.request_commands_all(dsts@.take(i as int)),
                outbox.events@ == old(outbox).events@,
            decreases dsts@.len() - i,
        {
            proof {
                let next = dsts@.take(i + 1);
                assert(next.drop_last() =~= dsts@.take(i as int));
            }
            self.send_bootstrap_request(dsts[i], outbox);
            assert(outbox.commands@ =~= sent + start.request_commands_all(dsts@.take(i + 1)));
            i = i + 1;
        }
        assert(dsts@.take(dsts@.len() as int) =~= dsts@);
    }

    /// Returns the name whose section the node asks for. A relocating node
    /// asks for the section of the name that its old section gave it; any
    /// other node asks for the section of its own name.
    pub fn get_destination(&self) -> (name: XorName)
        ensures
            name == self@.destination(),
    {
        match &self.relocate_details {
            Some(details) => details.destination(),
            None => self.full_id.name(),
        }
    }

    /// Returns the prefix that the name of the node must match to join the
    /// section `prefix`: the prefix of the section, extended towards the
    /// destination.
    fn name_prefix(&self, prefix: &Prefix) -> (range: Prefix)
        ensures
            range@ == self@.join_range(*prefix),
    {
        let destination = self.get_destination();
        let mut range = *prefix;
        let start = prefix.bit_count();
        let mut k: usize = 0;
        while k < EXTRA_SPLIT_COUNT
            invariant
                k <= EXTRA_SPLIT_COUNT,
                start == prefix@.len() <= 256,
                range@ == extended_towards(prefix@, destination, k as int),
            decreases EXTRA_SPLIT_COUNT - k,
        {
            let at = range.bit_count();
            range = range.pushed(destination.bit(at));
            k = k + 1;
            assert(range@ =~= extended_towards(prefix@, destination, k as int));
        }
        range
    }

    /// Returns what the host has to supply before the node can join the
    /// section of `info`.
    pub fn join_requirements(&self, info: &EldersInfo) -> (needs: JoinRequirements)
        ensures
            needs.needs_relocation_proof == (self@.relocate_details is Some),
            match needs.name_range {
                Some(range) => self@.needs_new_name(info@.prefix) && range@ == self@.join_range(info@.prefix),
                None => !self@.needs_new_name(info@.prefix),
            },
    {
        let range = self.name_prefix(&info.prefix());
        let name_range = if range.matches(&self.full_id.name()) { None } else { Some(range) };
        JoinRequirements { name_range, needs_relocation_proof: self.relocate_details.is_some() }
    }

    /// Prepares the node for joining the section of `info`. The name of the
    /// node must match the section's prefix and, in the three bits after it,
    /// the destination; where it does not, the node adopts the new identity
    /// that the host supplied, which must have such a name, and stays as it
    /// was where the host supplied none. A relocating node needs the proof
    /// that binds its old identity to its name in the new section; the
    /// order to relocate is used up by the attempt, also where the proof is
    /// missing.
    pub fn join_section(&mut self, info: EldersInfo, material: JoinMaterial) -> (r: Result<Transition, RoutingError>)
        ensures
            final(self)@ == old(self)@.after_join(info@.prefix, material),
            match old(self)@.join_error(info@.prefix, material) {
                Some(e) => r == Err::<Transition, RoutingError>(e),
                None => r == Ok::<Transition, RoutingError>(
                    Transition::IntoJoining { info, relocate_payload: old(self)@.join_payload(material) },
                ) && final(self)@ == old(self)@.joined(info@.prefix, material),
            },
    {
        let range = self.name_prefix(&info.prefix());
        let JoinMaterial { new_full_id, relocation_proof } = material;
        if !range.matches(&self.full_id.name()) {
            match new_full_id {
                Some(id) => {
                    if !range.matches(&id.name()) {
                        return Err(RoutingError::InvalidNewId);
                    }
                    self.full_id = id;
                },
                None => {
                    return Err(RoutingError::InvalidNewId);
                },
            }
        }
        match self.relocate_details.take() {
            Some(details) => match relocation_proof {
                Some(proof) => Ok(
                    Transition::IntoJoining { info, relocate_payload: Some(RelocatePayload::new(details, proof)) },
                ),
                None => Err(RoutingError::MissingRelocationProof),
            },
            None => Ok(Transition::IntoJoining { info, relocate_payload: None }),
        }
    }

    /// Drops every contact and asks the contacts `new_conn_infos` instead.
    fn reconnect_to_new_section(&mut self, new_conn_infos: &Vec<ConnectionInfo>, outbox: &mut Outbox)
        ensures
            final(self)@ == old(self)@.dropped_all().requested_all(new_conn_infos@),
            final(outbox).commands@ == old(outbox).commands@.push(Command::DisconnectAll) + old(self)@.dropped_all().request_commands_all(new_conn_infos@),
            final(outbox).events@ == old(outbox).events@,
    {
        outbox.send_command(Command::DisconnectAll);
        self.peer_map.remove_all();
        self.pending_requests.clear();
        self.timeout_tokens.clear();
        self.send_bootstrap_requests(new_conn_infos, outbox);
    }

    /// Asks the transport to bootstrap again once no contact is pending.
    fn request_failed(&mut self, outbox: &mut Outbox)
        ensures
            final(self)@ == old(self)@,
            final(outbox).commands@ == old(outbox).commands@ + old(self)@.retry_commands(),
            final(outbox).events@ == old(outbox).events@,
    {
        if self.pending_requests.is_empty() {
            outbox.send_command(Command::Bootstrap);
        }
    }

    /// Returns whether the node is a recipient of a message for `dst`: a
    /// bootstrapping node is in no section, so only a message for the
    /// directly connected peer is for it.
    pub fn in_dst_location(&self, dst: &DstLocation) -> (b: bool)
        ensures
            b == (*dst is Direct),
    {
        match dst {
            DstLocation::Direct => true,
            _ => false,
        }
    }

    /// Returns the name of the node.
    pub fn name(&self) -> (name: XorName)
        ensures
            name == self@.name(),
    {
        self.full_id.name()
    }

    /// Returns whether the contact at `addr` was asked and has not answered yet.
    pub fn is_pending(&self, addr: PeerAddr) -> (b: bool)
        ensures
            b == self@.pending_requests.contains(addr),
    {
        self.pending_requests.contains(addr)
    }

    /// Returns the contact that the timeout `token` stands for, if the token is live.
    pub fn timeout_target(&self, token: u64) -> (target: Option<PeerAddr>)
        ensures
            target == (if self@.timeout_tokens.contains_key(token) {
                Some(self@.timeout_tokens[token])
            } else {
                None
            }),
    {
        match self.timeout_tokens.get(&token) {
            Some(addr) => Some(*addr),
            None => None,
        }
    }

    /// Returns whether the node bootstraps because it is being relocated.
    pub fn is_relocating(&self) -> (b: bool)
        ensures
            b == (self@.relocate_details is Some),
    {
        self.relocate_details.is_some()
    }

    /// Returns the peers that the node is connected to.
    pub fn peer_map(&self) -> (map: &PeerMap)
        ensures
            map@ == self@.peers,
    {
        &self.peer_map
    }

    /// Returns the identity of the node.
    pub fn full_id(&self) -> (id: &FullId)
        ensures
            *id == self@.full_id,
    {
        &self.full_id
    }

    /// Handles a request of the application to send a message. A node that
    /// has not bootstrapped cannot send: the request is dropped. Whether
    /// that is reported as an error is the choice of the host.
    pub fn handle_send_message(&mut self, src: SrcLocation, dst: DstLocation, content: Vec<u8>) -> (r: Result<
        (),
        RoutingError,
    >)
        ensures
            final(self)@ == old(self)@,
            r == (if old(self)@.config.send_before_bootstrap_is_error {
                Err::<(), RoutingError>(RoutingError::InvalidStateForOperation)
            } else {
                Ok::<(), RoutingError>(())
            }),
    {
        if self.config.send_before_bootstrap_is_error {
            Err(RoutingError::InvalidStateForOperation)
        } else {
            Ok(())
        }
    }

    /// Handles a timeout token. Where the token stands for a contact that is
    /// still pending, the contact is dropped and disconnected, and the
    /// transport is asked to bootstrap again if no contact is left. The
    /// token is forgotten in any case.
    pub fn handle_timeout(&mut self, token: u64, outbox: &mut Outbox) -> (t: Transition)
        ensures
            t is Stay,
            final(self)@ == old(self)@.timed_out(token),
            final(outbox).commands@ == old(outbox).commands@ + old(self)@.timeout_commands(token),
            final(outbox).events@ == old(outbox).events@,
    {
        match self.timeout_tokens.remove(&token) {
            Some(peer_addr) => {
                if !self.pending_requests.remove(peer_addr) {
                    assert(self@.pending_requests =~= old(self)@.pending_requests);
                    return Transition::Stay;
                }
                self.disconnect(peer_addr, outbox);
                self.request_failed(outbox);
            },
            None => {
            },
        }
        Transition::Stay
    }

    /// Closes the connection to the peer at `addr`.
    fn disconnect(&mut self, addr: PeerAddr, outbox: &mut Outbox)
        ensures
            final(self)@ == (BootstrappingModel { peers: old(self)@.peers.remove(addr), ..old(self)@ }),
            final(outbox).commands@ == old(outbox).commands@.push(Command::Disconnect(addr)),
            final(outbox).events@ == old(outbox).events@,
    {
        let _ = self.peer_map.disconnect(addr);
        outbox.send_command(Command::Disconnect(addr));
    }

    /// Handles the transport's report that it has reached the contact
    /// `conn_info`: the contact is asked where to join.
    pub fn handle_bootstrapped_to(&mut self, conn_info: ConnectionInfo, outbox: &mut Outbox) -> (t: Transition)
        ensures
            t is Stay,
            final(self)@ == old(self)@.requested(conn_info),
            final(outbox).commands@ == old(outbox).commands@ + old(self)@.request_commands(conn_info),
            final(outbox).events@ == old(outbox).events@,
    {
        self.send_bootstrap_request(conn_info, outbox);
        Transition::Stay
    }

    /// Handles the transport's report that it could not bootstrap: the
    /// application learns that the node has terminated, and the node stops.
    pub fn handle_bootstrap_failure(&mut self, outbox: &mut Outbox) -> (t: Transition)
        ensures
            t is Terminate,
            final(self)@ == old(self)@,
            final(outbox).events@ == old(outbox).events@.push(Event::Terminated),
            final(outbox).commands@ == old(outbox).commands@,
    {
        outbox.send_event(Event::Terminated);
        Transition::Terminate
    }

    /// Handles the loss of the connection to the peer at `peer_addr`: the
    /// peer is no longer pending nor connected, and the transport is asked
    /// to bootstrap again if no contact is left.
    pub fn handle_connection_failure(&mut self, peer_addr: PeerAddr, outbox: &mut Outbox) -> (t: Transition)
        ensures
            t is Stay,
            final(self)@ == old(self)@.connection_failed(peer_addr),
            final(outbox).commands@ == old(outbox).commands@ + old(self)@.connection_failed(peer_addr).retry_commands(),
            final(outbox).events@ == old(outbox).events@,
    {
        let _ = self.pending_requests.remove(peer_addr);
        let _ = self.peer_map.disconnect(peer_addr);
        self.request_failed(outbox);
        Transition::Stay
    }

    /// Handles a message that came over the connection `sender`.
    ///
    /// Only an answer to a request to bootstrap is handled; any other
    /// message is dropped. The answer must come from a single node over a
    /// known connection. An answer from a peer that was not asked is
    /// ignored, and that peer is disconnected. An answer that names a
    /// section makes the node join it, with what the host supplied in
    /// `material`; an answer that names other contacts makes the node drop
    /// its contacts and ask those.
    pub fn handle_message(&mut self, sender: Option<ConnectionInfo>, msg: Message, material: JoinMaterial, outbox: &mut Outbox) -> (r:
        Result<Transition, RoutingError>)
        ensures
            final(outbox).events@ == old(outbox).events@,
            match msg.variant {
                Variant::BootstrapResponse(response) => match msg.src.sender_spec(sender) {
                    Err(e) => r == Err::<Transition, RoutingError>(e) && final(self)@ == old(self)@ && final(outbox).commands@
                        == old(outbox).commands@,
                    Ok((_, conn_info)) => if !old(self)@.pending_requests.contains(conn_info.peer_addr) {
                        r == Ok::<Transition, RoutingError>(Transition::Stay) && final(self)@ == (BootstrappingModel {
                            peers: old(self)@.peers.remove(conn_info.peer_addr),
                            ..old(self)@
                        }) && final(outbox).commands@ == old(outbox).commands@.push(Command::Disconnect(conn_info.peer_addr))
                    } else {
                        match response {
                            BootstrapResponse::Join(info) => final(outbox).commands@ == old(outbox).commands@
                                && final(self)@ == old(self)@.after_join(info@.prefix, material)
                                && match old(self)@.join_error(info@.prefix, material) {
                                Some(e) => r == Err::<Transition, RoutingError>(e),
                                None => r == Ok::<Transition, RoutingError>(
                                    Transition::IntoJoining { info, relocate_payload: old(self)@.join_payload(material) },
                                ) && final(self)@ == old(self)@.joined(info@.prefix, material),
                            },
                            BootstrapResponse::Rebootstrap(new_conn_infos) => r == Ok::<Transition, RoutingError>(
                                Transition::Stay,
                            ) && final(self)@ == old(self)@.dropped_all().requested_all(new_conn_infos@) && final(outbox).commands@ == old(outbox).commands@.push(Command::DisconnectAll) + old(self)@.dropped_all().request_commands_all(new_conn_infos@),
                        }
                    },
                },
                _ => r == Ok::<Transition, RoutingError>(Transition::Stay) && final(self)@ == old(self)@ && final(outbox).commands@ == old(outbox).commands@,
            },
    {
        let Message { src, dst, variant, signatures } = msg;
        let response = match variant {
            Variant::BootstrapResponse(response) => response,
            _ => {
                return Ok(Transition::Stay);
            },
        };
        let peer_addr = match src.to_sender(sender) {
            Ok((_, conn_info)) => conn_info.peer_addr,
            Err(e) => {
                return Err(e);
            },
        };
        if !self.pending_requests.contains(peer_addr) {
            self.disconnect(peer_addr, outbox);
            return Ok(Transition::Stay);
        }
        match response {
            BootstrapResponse::Join(info) => self.join_section(info, material),
            BootstrapResponse::Rebootstrap(new_conn_infos) => {
                self.reconnect_to_new_section(&new_conn_infos, outbox);
                Ok(Transition::Stay)
            },
        }
    }

    /// Returns whether a bootstrapping node handles the message: only the
    /// answers to its request to bootstrap are handled.
    pub fn should_handle_message(&self, msg: &Message) -> (b: bool)
        ensures
            b == (msg.variant is BootstrapResponse),
    {
        Stage::Bootstrapping.accepts(&msg.variant)
    }

    /// Returns whether an incoming message passes the filter of this state:
    /// a bootstrapping node filters nothing.
    pub fn filter_incoming_message(&mut self, message: &MessageWithBytes) -> (b: bool)
        ensures
            b,
            final(self)@ == old(self)@,
    {
        true
    }

    /// Relays a message that is not for this node: a bootstrapping node
    /// relays nothing, and reports that as done.
    pub fn relay_message(&mut self, message: &MessageWithBytes) -> (r: Result<(), RoutingError>)
        ensures
            r is Ok,
            final(self)@ == old(self)@,
    {
        Ok(())
    }

    /// Judges the verification of a message by the cryptographic
    /// collaborator, whose result is `verified`. A bootstrapping node has no
    /// keys to trust yet but those of its contact, so it accepts a message
    /// only if it is fully verified.
    pub fn verify_message(&self, verified: Result<VerifyStatus, RoutingError>) -> (r: Result<bool, RoutingError>)
        ensures
            r == (match verified {
                Ok(VerifyStatus::Full) => Ok::<bool, RoutingError>(true),
                Ok(VerifyStatus::ProofTooNew) => Err::<bool, RoutingError>(RoutingError::UntrustedMessage),
                Err(e) => Err::<bool, RoutingError>(e),
            }),
    {
        match verified {
            Ok(status) => match status.require_full() {
                Ok(()) => Ok(true),
                Err(e) => Err(e),
            },
            Err(e) => Err(e),
        }
    }
}

} // verus!
