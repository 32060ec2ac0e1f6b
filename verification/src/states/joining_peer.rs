//! The state of a node that has asked a section to accept it.

use vstd::prelude::*;
use crate::chain::{EldersInfo, NetworkParams, SectionModel};
use crate::event::{Connected, Event};
use crate::id::FullId;
use crate::messages::{JoinRequest, Message, Variant};
use crate::outbox::{Command, Outbox};
use crate::invariants::{section_models, verify_section_invariants_for_node, NodeModel, NodeView, NodeViolation};
use crate::p2p_node::{ConnectionInfo, PeerAddr};
use crate::peer_map::PeerMap;
use crate::relocation::RelocatePayload;
use crate::section_chain::Chain;
use crate::state_machine::{JoinTimeoutPolicy, LifecycleConfig, Stage, State, Transition};
use crate::states::approved_peer::ApprovedPeer;
use crate::states::bootstrapping_peer::{BootstrappingModel, BootstrappingPeer, BootstrappingPeerDetails};
use crate::timer::Timer;
use crate::xor_name::XorName;

verus! {

/// The time after which an unanswered request to join is given up, in milliseconds.
pub const JOIN_TIMEOUT: u64 = 60_000;

/// What a node takes along into the joining state.
pub struct JoiningPeerDetails {
    pub peer_map: PeerMap,
    pub full_id: FullId,
    pub network_cfg: NetworkParams,
    pub config: LifecycleConfig,
    pub timer: Timer,
    pub elders_info: EldersInfo,
    pub relocate_payload: Option<RelocatePayload>,
}

/// The addresses of the elders of a section, in the order of its members.
pub open spec fn elder_conn_infos(info: EldersInfo) -> Seq<ConnectionInfo> {
    Seq::new(info@.members.len(), |i: int| info@.members[i].connection_info)
}

/// The commands `after` are the commands `before` and those of a node that
/// enters the joining state: the timeout of the wait is scheduled under
/// `token`, and the request to join, with the proof of relocation if there
/// is one, goes to every elder of the section.
pub open spec fn asks_to_join(
    before: Seq<Command>,
    after: Seq<Command>,
    token: u64,
    info: EldersInfo,
    relocate_payload: Option<RelocatePayload>,
) -> bool {
    &&& after.len() == before.len() + 2
    &&& after.take(before.len() as int) == before
    &&& after[before.len() as int] == (Command::Schedule { token, duration: JOIN_TIMEOUT })
    &&& after.last() matches Command::SendDirectToAll { dsts, variant } && dsts@ == elder_conn_infos(info) && variant
        == Variant::JoinRequest(JoinRequest { elders_version: info@.version, relocate_payload })
}

/// The state of a node that waits for a section to accept it.
pub struct JoiningPeer {
    peer_map: PeerMap,
    full_id: FullId,
    network_cfg: NetworkParams,
    config: LifecycleConfig,
    timer: Timer,
    elders_info: EldersInfo,
    join_token: u64,
    relocating: bool,
}

impl JoiningPeer {
    /// The token of the timeout that ends the wait.
    pub closed spec fn join_token_spec(self) -> u64 {
        self.join_token
    }

    /// The node joins because it was relocated.
    pub closed spec fn relocating_spec(self) -> bool {
        self.relocating
    }

    /// The choices of the host.
    pub closed spec fn config_spec(self) -> LifecycleConfig {
        self.config
    }

    /// The elders that the node asked.
    pub closed spec fn elders_info_spec(self) -> EldersInfo {
        self.elders_info
    }

    /// The identity under which the node joins.
    pub closed spec fn full_id_spec(self) -> FullId {
        self.full_id
    }

    /// The token that the node's timer hands out next.
    pub closed spec fn next_token_spec(self) -> u64 {
        self.timer@
    }

    /// The peers that the node is connected to.
    pub closed spec fn peers_spec(self) -> Set<PeerAddr> {
        self.peer_map@
    }

    /// The sizes of the network.
    pub closed spec fn network_cfg_spec(self) -> NetworkParams {
        self.network_cfg
    }

    /// What the node knows of the network once the section of `info` has
    /// accepted it: its section, and no neighbour.
    pub open spec fn as_member(self, info: SectionModel) -> NodeModel {
        NodeModel {
            name: self.full_id_spec().public_id.name,
            is_elder: info.elder_set().contains(self.full_id_spec().public_id.name),
            our_section: info,
            neighbours: Seq::empty(),
        }
    }

    /// Enters the joining state: schedules the timeout of the wait and sends
    /// the request to join, with the proof of relocation if there is one, to
    /// every elder of the section.
    pub fn new(details: JoiningPeerDetails, outbox: &mut Outbox) -> (peer: JoiningPeer)
        ensures
            peer.join_token_spec() == details.timer@,
            peer.next_token_spec() == crate::timer::token_after(details.timer@),
            peer.relocating_spec() == (details.relocate_payload is Some),
            peer.config_spec() == details.config,
            peer.elders_info_spec() == details.elders_info,
            peer.full_id_spec() == details.full_id,
            peer.peers_spec() == details.peer_map@,
            peer.network_cfg_spec() == details.network_cfg,
            final(outbox).events@ == old(outbox).events@,
            asks_to_join(
                old(outbox).commands@,
                final(outbox).commands@,
                details.timer@,
                details.elders_info,
                details.relocate_payload,
            ),
    {
        let mut timer = details.timer;
        let join_token = timer.schedule(JOIN_TIMEOUT);
        outbox.send_command(Command::Schedule { token: join_token, duration: JOIN_TIMEOUT });
        let mut dsts: Vec<ConnectionInfo> = Vec::new();
        let members = details.elders_info.members();
        let mut i: usize = 0;
        while i < members.len()
            invariant
                i <= members@.len(),
                dsts@.len() == i,
                forall|j: int| 0 <= j < i ==> dsts@[j] == members@[j].connection_info,
            decreases members@.len() - i,
        {
            dsts.push(members[i].connection_info);
            i = i + 1;
        }
        assert(dsts@ =~= elder_conn_infos(details.elders_info));
        let relocating = details.relocate_payload.is_some();
        let request = JoinRequest {
            elders_version: details.elders_info.version(),
            relocate_payload: details.relocate_payload,
        };
        outbox.send_command(Command::SendDirectToAll { dsts, variant: Variant::JoinRequest(request) });
        assert(outbox.commands@.take(old(outbox).commands@.len() as int) =~= old(outbox).commands@);
        JoiningPeer {
            peer_map: details.peer_map,
            full_id: details.full_id,
            network_cfg: details.network_cfg,
            config: details.config,
            timer,
            elders_info: details.elders_info,
            join_token,
            relocating,
        }
    }

    /// Handles a timeout token. The token of the wait ends the wait as the
    /// host has chosen: the node bootstraps again, or it tells the
    /// application that it has to be started again and stays as it is. Any
    /// other token is ignored.
    pub fn handle_timeout(&mut self, token: u64, outbox: &mut Outbox) -> (t: Transition)
        ensures
            *final(self) == *old(self),
            final(outbox).commands@ == old(outbox).commands@,
            token == old(self).join_token_spec() && old(self).config_spec().on_join_timeout
                == JoinTimeoutPolicy::Rebootstrap ==> t is Rebootstrap && final(outbox).events@ == old(outbox).events@,
            token == old(self).join_token_spec() && old(self).config_spec().on_join_timeout
                == JoinTimeoutPolicy::RestartRequired ==> t is Stay && final(outbox).events@ == old(outbox).events@.push(
                Event::RestartRequired,
            ),
            token != old(self).join_token_spec() ==> t is Stay && final(outbox).events@ == old(outbox).events@,
    {
        if token != self.join_token {
            return Transition::Stay;
        }
        match self.config.on_join_timeout {
            JoinTimeoutPolicy::Rebootstrap => Transition::Rebootstrap,
            JoinTimeoutPolicy::RestartRequired => {
                outbox.send_event(Event::RestartRequired);
                Transition::Stay
            },
        }
    }

    /// Returns the name under which the node joins.
    pub fn name(&self) -> (name: XorName)
        ensures
            name == self.full_id_spec().public_id.name,
    {
        self.full_id.name()
    }

    /// Gives up joining and enters the bootstrapping state again, with the
    /// identity, the connections and the timer that the node has.
    pub fn rebootstrap(self, outbox: &mut Outbox) -> (peer: BootstrappingPeer)
        ensures
            peer@ == (BootstrappingModel {
                pending_requests: Set::empty(),
                timeout_tokens: Map::empty(),
                peers: self.peers_spec(),
                next_token: self.next_token_spec(),
                full_id: self.full_id_spec(),
                relocate_details: None,
                network_cfg: self.network_cfg_spec(),
                config: self.config_spec(),
            }),
            final(outbox).commands@ == old(outbox).commands@.push(Command::Bootstrap),
            final(outbox).events@ == old(outbox).events@,
    {
        BootstrappingPeer::new(
            BootstrappingPeerDetails {
                peer_map: self.peer_map,
                full_id: self.full_id,
                network_cfg: self.network_cfg,
                config: self.config,
                timer: self.timer,
            },
            outbox,
        )
    }

    /// Becomes a member of the section of `info`, which has accepted the
    /// node: an adult, or an elder where the node is among the elders of
    /// `info`. A member starts with empty message filters and without
    /// knowledge of neighbours. Where the rules of section membership do
    /// not hold of the node in that section, the node stays as it is, and
    /// the broken rule is returned with it.
    pub fn into_adult(self, info: EldersInfo) -> (r: Result<ApprovedPeer, (JoiningPeer, NodeViolation)>)
        ensures
            match self.as_member(info@).first_violation(self.network_cfg_spec().elder_size) {
                None => r matches Ok(peer) && peer.chain@ == self.as_member(info@) && peer.chain.elder_size_spec()
                    == self.network_cfg_spec().elder_size && peer.chain.valid() && peer.full_id == self.full_id_spec()
                    && peer.peer_map@ == self.peers_spec() && peer.timer@ == self.next_token_spec() && peer.wf()
                    && peer.filter_spec().valid() && peer.network_cfg == self.network_cfg_spec() && peer.config
                    == self.config_spec(),
                Some(v) => r matches Err((peer, e)) && peer == self && e == v,
            },
    {
        let neighbours: Vec<EldersInfo> = Vec::new();
        assert(section_models(neighbours@) =~= Seq::<SectionModel>::empty());
        match Chain::new(self.network_cfg.elder_size, self.full_id.name(), info, neighbours) {
            Ok(chain) => Ok(
                ApprovedPeer::new(chain, self.full_id, self.peer_map, self.timer, self.network_cfg, self.config),
            ),
            Err(v) => Err((self, v)),
        }
    }

    /// Returns whether a joining node handles the message: only the approval
    /// of the section is handled.
    pub fn should_handle_message(&self, msg: &Message) -> (b: bool)
        ensures
            b == (msg.variant is NodeApproval),
    {
        Stage::Joining.accepts(&msg.variant)
    }

    /// The node can become a member of the section of `info`: it would break
    /// no rule of section membership there.
    pub open spec fn can_join(self, info: SectionModel) -> bool {
        self.as_member(info).first_violation(self.network_cfg_spec().elder_size) is None
    }

    /// Returns whether the node can become a member of the section of `info`.
    pub fn fits_into(&self, info: &EldersInfo) -> (b: bool)
        ensures
            b == self.can_join(info@),
    {
        let name = self.full_id.name();
        let neighbours: Vec<EldersInfo> = Vec::new();
        assert(section_models(neighbours@) =~= Seq::<SectionModel>::empty());
        let view = NodeView { name, is_elder: info.has_elder(&name), our_section: info.duplicate(), neighbours };
        verify_section_invariants_for_node(&view, self.network_cfg.elder_size).is_ok()
    }

    /// Handles a message. The approval of a section that the node can
    /// become a member of makes the node an adult of it: the application
    /// learns that the node is connected, for the first time or after a
    /// relocation, and the state machine goes on with the elders that the
    /// approval names. An approval that names a section in which the node
    /// would break a rule of section membership is dropped, and so is any
    /// other message: the application learns nothing, and the node goes on
    /// waiting.
    pub fn handle_message(&mut self, msg: Message, outbox: &mut Outbox) -> (t: Transition)
        ensures
            *final(self) == *old(self),
            final(outbox).commands@ == old(outbox).commands@,
            match msg.variant {
                Variant::NodeApproval(info) if old(self).can_join(info@) => t == (Transition::IntoAdult {
                    elders_info: info,
                }) && final(outbox).events@ == old(outbox).events@.push(
                    Event::Connected(
                        if old(self).relocating_spec() {
                            Connected::Relocate
                        } else {
                            Connected::First
                        },
                    ),
                ),
                _ => t is Stay && final(outbox).events@ == old(outbox).events@,
            },
    {
        match msg.variant {
            Variant::NodeApproval(info) => {
                if !self.fits_into(&info) {
                    return Transition::Stay;
                }
                let how = if self.relocating { Connected::Relocate } else { Connected::First };
                outbox.send_event(Event::Connected(how));
                Transition::IntoAdult { elders_info: info }
            },
            _ => Transition::Stay,
        }
    }
}

/// A joining node tells the application that it is connected only when it
/// becomes a member: the transition that goes with the event leads a node
/// in this state to the state of a member.
pub proof fn lemma_connected_means_member(peer: JoiningPeer, info: EldersInfo)
    requires
        peer.can_join(info@),
    ensures
        State::JoiningPeer(peer).moves(Transition::IntoAdult { elders_info: info }),
{
}

} // verus!
