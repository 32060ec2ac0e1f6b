use routing::chain::{EldersInfo, NetworkParams};
use routing::crypto::Signature;
use routing::event::{Connected, Event};
use routing::id::{FullId, PublicId, PublicKey};
use routing::location::{DstLocation, SrcLocation};
use routing::messages::{BootstrapResponse, JoinRequest, Message, Variant};
use routing::outbox::{Command, Outbox};
use routing::p2p_node::{ConnectionInfo, P2pNode, PeerAddr};
use routing::peer_map::PeerMap;
use routing::prefix::Prefix;
use routing::relocation::{RelocateDetails, RelocatePayload, SignedRelocateDetails};
use routing::state_machine::{JoinTimeoutPolicy, LifecycleConfig, Stage, Transition};
use routing::states::joining_peer::{JoiningPeer, JoiningPeerDetails, JOIN_TIMEOUT};
use routing::timer::Timer;
use routing::xor_name::XorName;

fn conn(n: u16) -> ConnectionInfo {
    ConnectionInfo { peer_addr: PeerAddr { ip: 1, port: n } }
}

fn public_id(n: u128) -> PublicId {
    PublicId { name: XorName { hi: n, lo: n }, public_key: PublicKey { hi: n, lo: 0 } }
}

fn info() -> EldersInfo {
    EldersInfo::new(vec![P2pNode::new(public_id(1), conn(1)), P2pNode::new(public_id(2), conn(2))], Prefix::default(), 3)
}

fn payload() -> RelocatePayload {
    RelocatePayload::new(
        SignedRelocateDetails {
            content: RelocateDetails { pub_id: public_id(9), destination: XorName { hi: 1, lo: 1 }, age: 6 },
            signature: Signature { bytes: vec![1] },
        },
        Signature { bytes: vec![2] },
    )
}

fn details(policy: JoinTimeoutPolicy, relocate_payload: Option<RelocatePayload>) -> JoiningPeerDetails {
    JoiningPeerDetails {
        peer_map: PeerMap::new(),
        full_id: FullId { public_id: public_id(5), secret_key: vec![] },
        network_cfg: NetworkParams::default(),
        config: LifecycleConfig { send_before_bootstrap_is_error: false, on_join_timeout: policy },
        timer: Timer::new(),
        elders_info: info(),
        relocate_payload,
    }
}

fn message(variant: Variant) -> Message {
    Message { src: SrcLocation::Node(XorName { hi: 1, lo: 1 }), dst: DstLocation::Direct, variant, signatures: vec![] }
}

#[test]
fn joining_sends_the_request_to_every_elder() {
    let mut outbox = Outbox::new();
    let _peer = JoiningPeer::new(details(JoinTimeoutPolicy::Rebootstrap, Some(payload())), &mut outbox);
    assert_eq!(
        outbox.commands,
        vec![
            Command::Schedule { token: 0, duration: JOIN_TIMEOUT },
            Command::SendDirectToAll {
                dsts: vec![conn(1), conn(2)],
                variant: Variant::JoinRequest(JoinRequest { elders_version: 3, relocate_payload: Some(payload()) }),
            },
        ]
    );
    assert!(outbox.events.is_empty());
}

#[test]
fn join_timeout_leads_back_to_bootstrap() {
    let mut outbox = Outbox::new();
    let mut peer = JoiningPeer::new(details(JoinTimeoutPolicy::Rebootstrap, None), &mut outbox);
    assert_eq!(peer.handle_timeout(5, &mut outbox), Transition::Stay);
    assert_eq!(peer.handle_timeout(0, &mut outbox), Transition::Rebootstrap);
    assert!(outbox.events.is_empty());
}

#[test]
fn join_timeout_asks_for_a_restart_where_the_host_chose_so() {
    let mut outbox = Outbox::new();
    let mut peer = JoiningPeer::new(details(JoinTimeoutPolicy::RestartRequired, None), &mut outbox);
    assert_eq!(peer.handle_timeout(1, &mut outbox), Transition::Stay);
    assert!(outbox.events.is_empty());
    assert_eq!(peer.handle_timeout(0, &mut outbox), Transition::Stay);
    assert_eq!(outbox.events, vec![Event::RestartRequired]);
}

#[test]
fn approval_connects_the_node_for_the_first_time() {
    let mut outbox = Outbox::new();
    let mut peer = JoiningPeer::new(details(JoinTimeoutPolicy::Rebootstrap, None), &mut outbox);
    let approval = message(Variant::NodeApproval(info()));
    assert!(peer.should_handle_message(&approval));
    assert_eq!(peer.handle_message(approval, &mut outbox), Transition::IntoAdult { elders_info: info() });
    assert_eq!(outbox.events, vec![Event::Connected(Connected::First)]);
}

#[test]
fn approval_connects_a_relocated_node_as_relocated() {
    let mut outbox = Outbox::new();
    let mut peer = JoiningPeer::new(details(JoinTimeoutPolicy::Rebootstrap, Some(payload())), &mut outbox);
    let transition = peer.handle_message(message(Variant::NodeApproval(info())), &mut outbox);
    assert_eq!(transition, Transition::IntoAdult { elders_info: info() });
    assert_eq!(outbox.events, vec![Event::Connected(Connected::Relocate)]);
}

#[test]
fn joining_node_drops_everything_but_its_approval() {
    let mut outbox = Outbox::new();
    let mut peer = JoiningPeer::new(details(JoinTimeoutPolicy::Rebootstrap, None), &mut outbox);
    let other = message(Variant::BootstrapResponse(BootstrapResponse::Rebootstrap(vec![])));
    assert!(!peer.should_handle_message(&other));
    assert_eq!(peer.handle_message(other, &mut outbox), Transition::Stay);
    assert_eq!(peer.handle_message(message(Variant::UserMessage(vec![1])), &mut outbox), Transition::Stay);
    assert!(outbox.events.is_empty());
    assert_eq!(outbox.commands.len(), 2);
}

#[test]
fn each_stage_accepts_its_own_messages() {
    let answer = Variant::BootstrapResponse(BootstrapResponse::Rebootstrap(vec![]));
    let approval = Variant::NodeApproval(info());
    let user = Variant::UserMessage(vec![]);
    let request = Variant::BootstrapRequest(XorName { hi: 0, lo: 0 });
    let signature = Variant::MessageSignature(vec![]);

    assert!(Stage::Bootstrapping.accepts(&answer));
    assert!(!Stage::Bootstrapping.accepts(&approval));
    assert!(!Stage::Bootstrapping.accepts(&user));
    assert!(!Stage::Bootstrapping.accepts(&request));

    assert!(!Stage::Joining.accepts(&answer));
    assert!(Stage::Joining.accepts(&approval));
    assert!(!Stage::Joining.accepts(&user));
    assert!(!Stage::Joining.accepts(&signature));

    assert!(!Stage::Approved.accepts(&answer));
    assert!(!Stage::Approved.accepts(&approval));
    assert!(Stage::Approved.accepts(&user));
    assert!(Stage::Approved.accepts(&request));
    assert!(Stage::Approved.accepts(&signature));
    assert!(Stage::Approved.accepts(&Variant::ConnectionResponse));
    assert!(Stage::Approved.accepts(&Variant::ParsecRequest(0, vec![])));
}

#[test]
fn approval_by_a_section_that_the_node_does_not_fit_is_dropped() {
    let mut outbox = Outbox::new();
    let mut peer = JoiningPeer::new(details(JoinTimeoutPolicy::Rebootstrap, None), &mut outbox);
    // The name of the node starts with the bit 0, the section is that of the names that start with 1.
    let elsewhere = Prefix::new(1, XorName { hi: 1u128 << 127, lo: 0 });
    let elders: Vec<P2pNode> = (1..=7u16)
        .map(|n| {
            let name = XorName { hi: (1u128 << 127) + n as u128, lo: 0 };
            P2pNode::new(PublicId { name, public_key: PublicKey { hi: 0, lo: 0 } }, conn(n))
        })
        .collect();
    let wrong = EldersInfo::new(elders, elsewhere, 4);
    assert!(!peer.fits_into(&wrong));
    assert!(peer.fits_into(&info()));
    assert_eq!(peer.handle_message(message(Variant::NodeApproval(wrong)), &mut outbox), Transition::Stay);
    // The application has heard nothing, and the node can still be approved.
    assert!(outbox.events.is_empty());
    assert_eq!(peer.handle_message(message(Variant::NodeApproval(info())), &mut outbox), Transition::IntoAdult { elders_info: info() });
    assert_eq!(outbox.events, vec![Event::Connected(Connected::First)]);
}
