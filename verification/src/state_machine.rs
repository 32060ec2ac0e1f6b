//! The stages of a node's life and the steps between them.
//!
//! A node bootstraps, joins a section, and is then a member of it, first as
//! an adult and later perhaps as an elder. The host feeds each event of the
//! transport and each timeout token to the handler of the current state;
//! the handler changes the state, fills the outbox and says where to go next.

use vstd::prelude::*;
use crate::chain::EldersInfo;
use crate::messages::Variant;
use crate::outbox::{Command, Outbox};
use crate::p2p_node::ConnectionInfo;
use crate::relocation::{RelocatePayload, SignedRelocateDetails};
use crate::states::approved_peer::ApprovedPeer;
use crate::states::bootstrapping_peer::{BootstrappingModel, BootstrappingPeer};
use crate::states::joining_peer::{asks_to_join, JoiningPeer};
use crate::timer::token_after;

verus! {

/// Where the state machine goes after a step.
#[derive(Debug, PartialEq, Eq)]
pub enum Transition {
    /// The node stays in its state.
    Stay,
    /// The node has found its section and goes on to join it.
    IntoJoining { info: EldersInfo, relocate_payload: Option<RelocatePayload> },
    /// The node gives up joining and bootstraps again.
    Rebootstrap,
    /// The section has accepted the node, which becomes an adult of it.
    IntoAdult { elders_info: EldersInfo },
    /// The node is relocated: it leaves its section and bootstraps again,
    /// with the elders of its future section as contacts.
    Relocate { details: SignedRelocateDetails, conn_infos: Vec<ConnectionInfo> },
    /// The node stops for good.
    Terminate,
}

/// The state of a node.
pub enum State {
    /// The node looks for the section that it is to join.
    BootstrappingPeer(BootstrappingPeer),
    /// The node has asked a section to accept it.
    JoiningPeer(JoiningPeer),
    /// The node is a member of a section.
    Approved(ApprovedPeer),
    /// The node has stopped for good.
    Terminated,
}

impl State {
    /// The stage of the node's life, while it handles messages.
    pub open spec fn stage_spec(self) -> Option<Stage> {
        match self {
            State::BootstrappingPeer(_) => Some(Stage::Bootstrapping),
            State::JoiningPeer(_) => Some(Stage::Joining),
            State::Approved(_) => Some(Stage::Approved),
            State::Terminated => None,
        }
    }

    /// Returns the stage of the node's life, or `None` for a node that has stopped.
    pub fn stage(&self) -> (stage: Option<Stage>)
        ensures
            stage == self.stage_spec(),
    {
        match self {
            State::BootstrappingPeer(_) => Some(Stage::Bootstrapping),
            State::JoiningPeer(_) => Some(Stage::Joining),
            State::Approved(_) => Some(Stage::Approved),
            State::Terminated => None,
        }
    }

    /// The transition leads from this state to another one.
    pub open spec fn moves(self, transition: Transition) -> bool {
        match (self, transition) {
            (State::Terminated, _) => false,
            (_, Transition::Stay) => false,
            (_, Transition::Terminate) => true,
            (State::BootstrappingPeer(_), Transition::IntoJoining { .. }) => true,
            (State::JoiningPeer(_), Transition::Rebootstrap) => true,
            (State::Approved(_), Transition::Relocate { .. }) => true,
            (State::JoiningPeer(peer), Transition::IntoAdult { elders_info }) => peer.as_member(elders_info@).first_violation(
                peer.network_cfg_spec().elder_size,
            ) is None,
            _ => false,
        }
    }

    /// Makes the transition that a handler of this state has returned.
    ///
    /// A node that has stopped stays stopped. `Terminate` stops the node.
    /// A bootstrapping node goes on to join the section it has found; a
    /// joining node bootstraps again, or becomes a member of the section
    /// that has accepted it, if that is in keeping with the rules of
    /// section membership. Any other transition leaves the state as it is.
    pub fn apply(self, transition: Transition, outbox: &mut Outbox) -> (next: State)
        ensures
            !self.moves(transition) ==> next == self && *final(outbox) == *old(outbox),
            self.moves(transition) ==> match (self, transition) {
                (_, Transition::Terminate) => next is Terminated && *final(outbox) == *old(outbox),
                (State::BootstrappingPeer(peer), Transition::IntoJoining { info, relocate_payload }) => {
                    &&& next matches State::JoiningPeer(joining)
                    &&& joining.join_token_spec() == peer@.next_token
                    &&& joining.next_token_spec() == token_after(peer@.next_token)
                    &&& joining.relocating_spec() == (relocate_payload is Some)
                    &&& joining.config_spec() == peer@.config
                    &&& joining.elders_info_spec() == info
                    &&& joining.full_id_spec() == peer@.full_id
                    &&& joining.peers_spec() == peer@.peers
                    &&& joining.network_cfg_spec() == peer@.network_cfg
                    &&& final(outbox).events@ == old(outbox).events@
                    &&& asks_to_join(old(outbox).commands@, final(outbox).commands@, peer@.next_token, info, relocate_payload)
                },
                (State::JoiningPeer(peer), Transition::Rebootstrap) => {
                    &&& next matches State::BootstrappingPeer(bootstrapping)
                    &&& bootstrapping@ == (BootstrappingModel {
                        pending_requests: Set::empty(),
                        timeout_tokens: Map::empty(),
                        peers: peer.peers_spec(),
                        next_token: peer.next_token_spec(),
                        full_id: peer.full_id_spec(),
                        relocate_details: None,
                        network_cfg: peer.network_cfg_spec(),
                        config: peer.config_spec(),
                    })
                    &&& final(outbox).commands@ == old(outbox).commands@.push(Command::Bootstrap)
                    &&& final(outbox).events@ == old(outbox).events@
                },
                (State::Approved(peer), Transition::Relocate { details, conn_infos }) => {
                    &&& next matches State::BootstrappingPeer(bootstrapping)
                    &&& bootstrapping@ == peer.as_relocating(details).requested_all(conn_infos@)
                    &&& final(outbox).commands@ == old(outbox).commands@ + peer.as_relocating(details).request_commands_all(
                        conn_infos@,
                    )
                    &&& final(outbox).events@ == old(outbox).events@
                },
                (State::JoiningPeer(peer), Transition::IntoAdult { elders_info }) => {
                    &&& next matches State::Approved(member)
                    &&& member.chain@ == peer.as_member(elders_info@)
                    &&& member.chain.valid()
                    &&& member.chain.elder_size_spec() == peer.network_cfg_spec().elder_size
                    &&& member.full_id == peer.full_id_spec()
                    &&& member.peer_map@ == peer.peers_spec()
                    &&& member.timer@ == peer.next_token_spec()
                    &&& member.network_cfg == peer.network_cfg_spec()
                    &&& member.config == peer.config_spec()
                    &&& member.filter_spec().valid()
                    &&& member.wf()
                    &&& *final(outbox) == *old(outbox)
                },
                _ => true,
            },
    {
        match self {
            State::Terminated => State::Terminated,
            State::BootstrappingPeer(peer) => match transition {
                Transition::Terminate => State::Terminated,
                Transition::IntoJoining { info, relocate_payload } => match peer.into_joining(info, relocate_payload, outbox) {
                    Ok(state) => state,
                    Err(_) => State::Terminated,
                },
                _ => State::BootstrappingPeer(peer),
            },
            State::JoiningPeer(peer) => match transition {
                Transition::Terminate => State::Terminated,
                Transition::Rebootstrap => State::BootstrappingPeer(peer.rebootstrap(outbox)),
                Transition::IntoAdult { elders_info } => match peer.into_adult(elders_info) {
                    Ok(member) => State::Approved(member),
                    Err((peer, _)) => State::JoiningPeer(peer),
                },
                _ => State::JoiningPeer(peer),
            },
            State::Approved(peer) => match transition {
                Transition::Terminate => State::Terminated,
                Transition::Relocate { details, conn_infos } => State::BootstrappingPeer(
                    peer.relocate(conn_infos, details, outbox),
                ),
                _ => State::Approved(peer),
            },
        }
    }
}

/// A node that has stopped stays stopped, whatever transition is made.
pub proof fn lemma_terminated_is_final(transition: Transition)
    ensures
        !State::Terminated.moves(transition),
{
}

/// What the node does when its request to join stays unanswered.
#[derive(Clone, Copy, Debug, PartialEq, Eq, Structural)]
pub enum JoinTimeoutPolicy {
    /// Bootstrap again.
    Rebootstrap,
    /// Tell the application that the node has to be started again.
    RestartRequired,
}

/// The choices that the host makes for the stages before membership.
#[derive(Clone, Copy, Debug, PartialEq, Eq, Structural)]
pub struct LifecycleConfig {
    /// Whether a request to send a user message before the node has
    /// bootstrapped is an error. Where it is not, the request is dropped and
    /// reported as done.
    pub send_before_bootstrap_is_error: bool,
    /// What to do when the request to join stays unanswered.
    pub on_join_timeout: JoinTimeoutPolicy,
}

impl Default for LifecycleConfig {
    fn default() -> (config: LifecycleConfig)
        ensures
            config == (LifecycleConfig {
                send_before_bootstrap_is_error: false,
                on_join_timeout: JoinTimeoutPolicy::Rebootstrap,
            }),
    {
        LifecycleConfig { send_before_bootstrap_is_error: false, on_join_timeout: JoinTimeoutPolicy::Rebootstrap }
    }
}

/// The stages of a node's life in which it handles messages.
#[derive(Clone, Copy, Debug, PartialEq, Eq, Structural)]
pub enum Stage {
    /// The node looks for its section.
    Bootstrapping,
    /// The node has asked a section to accept it.
    Joining,
    /// The node is an adult or an elder of a section.
    Approved,
}

impl Stage {
    /// A node in this stage handles a message with this content.
    pub open spec fn accepts_spec(self, variant: Variant) -> bool {
        match self {
            Stage::Bootstrapping => variant is BootstrapResponse,
            Stage::Joining => variant is NodeApproval,
            Stage::Approved => !(variant is BootstrapResponse) && !(variant is NodeApproval),
        }
    }

    /// Returns whether a node in this stage handles a message with this
    /// content. A bootstrapping node handles only answers to its request to
    /// bootstrap, a joining node only its approval, and a member everything
    /// but those two. What is not handled is dropped.
    pub fn accepts(&self, variant: &Variant) -> (b: bool)
        ensures
            b == self.accepts_spec(*variant),
    {
        match self {
            Stage::Bootstrapping => match variant {
                Variant::BootstrapResponse(_) => true,
                Variant::NeighbourInfo(_)
                | Variant::UserMessage(_)
                | Variant::NodeApproval(_)
                | Variant::AckMessage { .. }
                | Variant::GenesisUpdate(_)
                | Variant::Relocate(_)
                | Variant::MessageSignature(_)
                | Variant::BootstrapRequest(_)
                | Variant::JoinRequest(_)
                | Variant::ConnectionResponse
                | Variant::MemberKnowledge { .. }
                | Variant::ParsecRequest(..)
                | Variant::ParsecResponse(..) => false,
            },
            Stage::Joining => match variant {
                Variant::NodeApproval(_) => true,
                _ => false,
            },
            Stage::Approved => match variant {
                Variant::BootstrapResponse(_) | Variant::NodeApproval(_) => false,
                _ => true,
            },
        }
    }
}

} // verus!
