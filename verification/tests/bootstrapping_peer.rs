use routing::chain::{EldersInfo, NetworkParams};
use routing::crypto::Signature;
use routing::error::RoutingError;
use routing::event::Event;
use routing::id::{FullId, PublicId, PublicKey};
use routing::location::{DstLocation, SrcLocation};
use routing::messages::{BootstrapResponse, Message, MessageWithBytes, Variant, VerifyStatus};
use routing::outbox::{Command, Outbox};
use routing::p2p_node::{ConnectionInfo, P2pNode, PeerAddr};
use routing::peer_map::PeerMap;
use routing::prefix::Prefix;
use routing::relocation::{RelocateDetails, RelocatePayload, SignedRelocateDetails};
use routing::state_machine::{JoinTimeoutPolicy, LifecycleConfig, State, Transition};
use routing::states::bootstrapping_peer::{
    BootstrappingPeer, BootstrappingPeerDetails, JoinMaterial, BOOTSTRAP_TIMEOUT, EXTRA_SPLIT_COUNT,
};
use routing::states::joining_peer::JOIN_TIMEOUT;
use routing::timer::Timer;
use routing::xor_name::XorName;
use routing::crypto::Digest256;

fn addr(n: u16) -> PeerAddr {
    PeerAddr { ip: 0xffff_0a00_0001, port: n }
}

fn conn(n: u16) -> ConnectionInfo {
    ConnectionInfo { peer_addr: addr(n) }
}

/// A name whose first four bits are `top_bits`.
fn name(top_bits: u128) -> XorName {
    XorName { hi: top_bits << 124, lo: 0xabc }
}

fn full_id(name: XorName) -> FullId {
    FullId { public_id: PublicId { name, public_key: PublicKey { hi: 1, lo: 2 } }, secret_key: vec![9, 9] }
}

fn details(name: XorName) -> BootstrappingPeerDetails {
    BootstrappingPeerDetails {
        peer_map: PeerMap::new(),
        full_id: full_id(name),
        network_cfg: NetworkParams::default(),
        config: LifecycleConfig::default(),
        timer: Timer::new(),
    }
}

fn no_material() -> JoinMaterial {
    JoinMaterial { new_full_id: None, relocation_proof: None }
}

fn response(from: XorName, response: BootstrapResponse) -> Message {
    Message {
        src: SrcLocation::Node(from),
        dst: DstLocation::Direct,
        variant: Variant::BootstrapResponse(response),
        signatures: vec![],
    }
}

fn elders_info(prefix: Prefix) -> EldersInfo {
    let elder = P2pNode::new(PublicId { name: prefix.name(), public_key: PublicKey { hi: 0, lo: 0 } }, conn(900));
    EldersInfo::new(vec![elder], prefix, 1)
}

fn signed_relocation(destination: XorName) -> SignedRelocateDetails {
    SignedRelocateDetails {
        content: RelocateDetails { pub_id: full_id(name(0)).public_id, destination, age: 5 },
        signature: Signature { bytes: vec![1, 2, 3] },
    }
}

// Check that losing our proxy connection while in the `BootstrappingPeer` state doesn't stall
// and instead triggers a re-bootstrap attempt.
#[test]
fn lose_proxy_connection() {
    let mut network_cfg = NetworkParams::default();
    network_cfg.elder_size = 7;
    network_cfg.safe_section_size = 30;

    // The endpoint of the bare-bones contact A.
    let node_a_endpoint = addr(1);

    // Node B starts in the `BootstrappingPeer` state and bootstraps off the contact above.
    let node_b_full_id = full_id(name(0b0110));
    let mut node_b_outbox = Outbox::new();
    let mut node_b = BootstrappingPeer::new(
        BootstrappingPeerDetails {
            peer_map: PeerMap::new(),
            full_id: node_b_full_id,
            network_cfg,
            config: LifecycleConfig::default(),
            timer: Timer::new(),
        },
        &mut node_b_outbox,
    );
    assert_eq!(node_b_outbox.commands, vec![Command::Bootstrap]);

    // The transport reports that it is connected to A, which makes B send a `BootstrapRequest`.
    let transition = node_b.handle_bootstrapped_to(ConnectionInfo { peer_addr: node_a_endpoint }, &mut node_b_outbox);
    assert_eq!(transition, Transition::Stay);
    assert!(node_b.peer_map().is_connected(node_a_endpoint));

    // Check that A would receive the `BootstrapRequest`.
    if let Some(Command::SendDirect { dst, variant }) = node_b_outbox.commands.last() {
        assert_eq!(dst.peer_addr, node_a_endpoint);
        match variant {
            Variant::BootstrapRequest(_) => (),
            _ => panic!("Should have received a `BootstrapRequest`."),
        };
    } else {
        panic!("Should have received `NewMessage` event.");
    }

    // Drop A, which triggers `ConnectionFailure` on B, which then attempts to rebootstrap.
    let sent = node_b_outbox.commands.len();
    let transition = node_b.handle_connection_failure(node_a_endpoint, &mut node_b_outbox);
    assert_eq!(transition, Transition::Stay);
    assert!(node_b_outbox.events.is_empty());
    assert_eq!(node_b_outbox.commands[sent..], [Command::Bootstrap]);
    assert!(!node_b.is_pending(node_a_endpoint));
    assert!(!node_b.peer_map().is_connected(node_a_endpoint));

    // There is no one to bootstrap to, so the bootstrap fails, which makes B terminate.
    let transition = node_b.handle_bootstrap_failure(&mut node_b_outbox);
    assert_eq!(transition, Transition::Terminate);
    assert_eq!(node_b_outbox.events.len(), 1);
    assert_eq!(node_b_outbox.events[0], Event::Terminated);
}

#[test]
fn timeouts_are_twenty_seconds_and_three_extra_bits() {
    assert_eq!(BOOTSTRAP_TIMEOUT, 20_000);
    assert!(JOIN_TIMEOUT >= BOOTSTRAP_TIMEOUT);
    assert_eq!(EXTRA_SPLIT_COUNT, 3);
}

#[test]
fn a_contact_is_asked_once() {
    let mut outbox = Outbox::new();
    let mut peer = BootstrappingPeer::new(details(name(0b0110)), &mut outbox);
    assert_eq!(peer.name(), name(0b0110));
    assert_eq!(peer.full_id().name(), name(0b0110));
    assert!(!peer.is_relocating());

    let _ = peer.handle_bootstrapped_to(conn(1), &mut outbox);
    assert_eq!(
        outbox.commands,
        vec![
            Command::Bootstrap,
            Command::Schedule { token: 0, duration: 20_000 },
            Command::SendDirect { dst: conn(1), variant: Variant::BootstrapRequest(name(0b0110)) },
        ]
    );
    assert!(peer.is_pending(addr(1)));
    assert_eq!(peer.timeout_target(0), Some(addr(1)));
    assert_eq!(peer.timeout_target(1), None);

    // The same contact again: nothing happens.
    let _ = peer.handle_bootstrapped_to(conn(1), &mut outbox);
    assert_eq!(outbox.commands.len(), 3);

    // Another contact gets the next token.
    let _ = peer.handle_bootstrapped_to(conn(2), &mut outbox);
    assert_eq!(outbox.commands.len(), 5);
    assert_eq!(outbox.commands[3], Command::Schedule { token: 1, duration: 20_000 });
    assert_eq!(peer.timeout_target(1), Some(addr(2)));
    assert!(outbox.events.is_empty());
}

#[test]
fn timeout_drops_the_contact_and_bootstraps_again_when_none_is_left() {
    let mut outbox = Outbox::new();
    let mut peer = BootstrappingPeer::new(details(name(0b0110)), &mut outbox);
    let _ = peer.handle_bootstrapped_to(conn(1), &mut outbox);
    let _ = peer.handle_bootstrapped_to(conn(2), &mut outbox);
    let sent = outbox.commands.len();

    // The first contact times out: it is dropped, but another is still pending.
    assert_eq!(peer.handle_timeout(0, &mut outbox), Transition::Stay);
    assert_eq!(outbox.commands[sent..], [Command::Disconnect(addr(1))]);
    assert!(!peer.is_pending(addr(1)));
    assert!(peer.is_pending(addr(2)));
    assert!(!peer.peer_map().is_connected(addr(1)));
    assert_eq!(peer.timeout_target(0), None);

    // The token fires again, or a token fires that was never handed out: nothing happens.
    let sent = outbox.commands.len();
    assert_eq!(peer.handle_timeout(0, &mut outbox), Transition::Stay);
    assert_eq!(peer.handle_timeout(77, &mut outbox), Transition::Stay);
    assert_eq!(outbox.commands.len(), sent);

    // The last contact times out: the transport is asked to bootstrap again.
    assert_eq!(peer.handle_timeout(1, &mut outbox), Transition::Stay);
    assert_eq!(outbox.commands[sent..], [Command::Disconnect(addr(2)), Command::Bootstrap]);
    assert!(outbox.events.is_empty());
}

#[test]
fn timeout_of_a_contact_that_failed_before_is_ignored() {
    let mut outbox = Outbox::new();
    let mut peer = BootstrappingPeer::new(details(name(0b0110)), &mut outbox);
    let _ = peer.handle_bootstrapped_to(conn(1), &mut outbox);
    let _ = peer.handle_bootstrapped_to(conn(2), &mut outbox);
    let _ = peer.handle_connection_failure(addr(1), &mut outbox);
    let sent = outbox.commands.len();
    assert_eq!(peer.handle_timeout(0, &mut outbox), Transition::Stay);
    assert_eq!(outbox.commands.len(), sent);
    assert_eq!(peer.timeout_target(0), None);
    assert!(peer.is_pending(addr(2)));
}

#[test]
fn connection_failure_with_contacts_left_does_not_bootstrap_again() {
    let mut outbox = Outbox::new();
    let mut peer = BootstrappingPeer::new(details(name(0b0110)), &mut outbox);
    let _ = peer.handle_bootstrapped_to(conn(1), &mut outbox);
    let _ = peer.handle_bootstrapped_to(conn(2), &mut outbox);
    let sent = outbox.commands.len();
    assert_eq!(peer.handle_connection_failure(addr(1), &mut outbox), Transition::Stay);
    assert_eq!(outbox.commands.len(), sent);
    assert_eq!(peer.handle_connection_failure(addr(2), &mut outbox), Transition::Stay);
    assert_eq!(outbox.commands[sent..], [Command::Bootstrap]);
}

#[test]
fn only_bootstrap_responses_are_handled() {
    let mut outbox = Outbox::new();
    let peer = BootstrappingPeer::new(details(name(0b0110)), &mut outbox);
    let with = |variant: Variant| Message {
        src: SrcLocation::Node(name(1)),
        dst: DstLocation::Direct,
        variant,
        signatures: vec![],
    };
    assert!(peer.should_handle_message(&with(Variant::BootstrapResponse(BootstrapResponse::Rebootstrap(vec![])))));
    assert!(peer.should_handle_message(&with(Variant::BootstrapResponse(BootstrapResponse::Join(elders_info(
        Prefix::default()
    ))))));
    let dropped = vec![
        Variant::NeighbourInfo(elders_info(Prefix::default())),
        Variant::UserMessage(vec![1]),
        Variant::NodeApproval(elders_info(Prefix::default())),
        Variant::AckMessage { src_prefix: Prefix::default(), ack_version: 1 },
        Variant::GenesisUpdate(elders_info(Prefix::default())),
        Variant::Relocate(signed_relocation(name(1)).content),
        Variant::MessageSignature(vec![]),
        Variant::BootstrapRequest(name(1)),
        Variant::JoinRequest(routing::messages::JoinRequest { elders_version: 0, relocate_payload: None }),
        Variant::ConnectionResponse,
        Variant::MemberKnowledge { elders_version: 1, parsec_version: 2 },
        Variant::ParsecRequest(1, vec![]),
        Variant::ParsecResponse(1, vec![]),
    ];
    for variant in dropped {
        assert!(!peer.should_handle_message(&with(variant)));
    }
}

#[test]
fn a_message_that_is_no_bootstrap_response_is_dropped() {
    let mut outbox = Outbox::new();
    let mut peer = BootstrappingPeer::new(details(name(0b0110)), &mut outbox);
    let _ = peer.handle_bootstrapped_to(conn(1), &mut outbox);
    let sent = outbox.commands.len();
    let msg = Message {
        src: SrcLocation::Node(name(1)),
        dst: DstLocation::Direct,
        variant: Variant::UserMessage(vec![1, 2]),
        signatures: vec![],
    };
    assert_eq!(peer.handle_message(Some(conn(1)), msg, no_material(), &mut outbox), Ok(Transition::Stay));
    assert_eq!(outbox.commands.len(), sent);
    assert!(peer.is_pending(addr(1)));
}

#[test]
fn a_response_from_a_peer_that_was_not_asked_is_ignored() {
    let mut outbox = Outbox::new();
    let mut peer = BootstrappingPeer::new(details(name(0b0110)), &mut outbox);
    let _ = peer.handle_bootstrapped_to(conn(1), &mut outbox);
    let sent = outbox.commands.len();
    let msg = response(name(1), BootstrapResponse::Join(elders_info(Prefix::default())));
    assert_eq!(peer.handle_message(Some(conn(5)), msg, no_material(), &mut outbox), Ok(Transition::Stay));
    assert_eq!(outbox.commands[sent..], [Command::Disconnect(addr(5))]);
    assert!(peer.is_pending(addr(1)));
}

#[test]
fn a_response_needs_a_single_sender_with_a_connection() {
    let mut outbox = Outbox::new();
    let mut peer = BootstrappingPeer::new(details(name(0b0110)), &mut outbox);
    let _ = peer.handle_bootstrapped_to(conn(1), &mut outbox);
    let sent = outbox.commands.len();

    let mut from_section = response(name(1), BootstrapResponse::Rebootstrap(vec![]));
    from_section.src = SrcLocation::Section(Prefix::default());
    assert_eq!(
        peer.handle_message(Some(conn(1)), from_section, no_material(), &mut outbox),
        Err(RoutingError::BadLocation)
    );
    let unconnected = response(name(1), BootstrapResponse::Rebootstrap(vec![]));
    assert_eq!(peer.handle_message(None, unconnected, no_material(), &mut outbox), Err(RoutingError::InvalidSource));
    assert_eq!(outbox.commands.len(), sent);
    assert!(peer.is_pending(addr(1)));
}

#[test]
fn join_with_a_matching_name_keeps_the_identity() {
    let mut outbox = Outbox::new();
    let ours = name(0b0110);
    let mut peer = BootstrappingPeer::new(details(ours), &mut outbox);
    let _ = peer.handle_bootstrapped_to(conn(1), &mut outbox);
    let sent = outbox.commands.len();

    // Our destination is our own name, so our name matches it in any number of bits.
    let info = elders_info(Prefix::new(1, ours));
    let needs = peer.join_requirements(&info);
    assert_eq!(needs.name_range, None);
    assert!(!needs.needs_relocation_proof);

    let msg = response(name(1), BootstrapResponse::Join(elders_info(Prefix::new(1, ours))));
    let transition = peer.handle_message(Some(conn(1)), msg, no_material(), &mut outbox);
    assert_eq!(transition, Ok(Transition::IntoJoining { info, relocate_payload: None }));
    assert_eq!(peer.name(), ours);
    assert_eq!(outbox.commands.len(), sent);
    assert!(outbox.events.is_empty());
}

#[test]
fn relocation_asks_the_contacts_for_the_destination() {
    let mut outbox = Outbox::new();
    let destination = name(0b1010);
    let peer = BootstrappingPeer::relocate(
        details(name(0b0110)),
        vec![conn(1), conn(2), conn(1)],
        signed_relocation(destination),
        &mut outbox,
    );
    assert!(peer.is_relocating());
    assert_eq!(peer.get_destination(), destination);
    // No bootstrap of the transport: the contacts are given. The repeated contact is asked once.
    assert_eq!(
        outbox.commands,
        vec![
            Command::Schedule { token: 0, duration: 20_000 },
            Command::SendDirect { dst: conn(1), variant: Variant::BootstrapRequest(destination) },
            Command::Schedule { token: 1, duration: 20_000 },
            Command::SendDirect { dst: conn(2), variant: Variant::BootstrapRequest(destination) },
        ]
    );
    assert!(peer.is_pending(addr(1)));
    assert!(peer.is_pending(addr(2)));
    assert!(peer.peer_map().is_connected(addr(2)));
}

#[test]
fn relocated_node_takes_a_name_in_the_destination_and_proves_continuity() {
    let mut outbox = Outbox::new();
    let old_name = name(0b0110);
    let destination = name(0b1010);
    let mut peer = BootstrappingPeer::relocate(details(old_name), vec![conn(1)], signed_relocation(destination), &mut outbox);

    // The section `1` is to be joined: the new name must match the destination in 1 + 3 bits.
    let info = elders_info(Prefix::new(1, destination));
    let needs = peer.join_requirements(&info);
    assert_eq!(needs.name_range, Some(Prefix::new(4, destination)));
    assert!(needs.needs_relocation_proof);

    let new_name = XorName { hi: 0b1010u128 << 124, lo: 0x5555 };
    let material = JoinMaterial {
        new_full_id: Some(full_id(new_name)),
        relocation_proof: Some(Signature { bytes: vec![7, 7] }),
    };
    let msg = response(name(1), BootstrapResponse::Join(elders_info(Prefix::new(1, destination))));
    let transition = peer.handle_message(Some(conn(1)), msg, material, &mut outbox);
    assert_eq!(
        transition,
        Ok(Transition::IntoJoining {
            info,
            relocate_payload: Some(RelocatePayload::new(signed_relocation(destination), Signature { bytes: vec![7, 7] })),
        })
    );
    assert_eq!(peer.name(), new_name);
    assert!(!peer.is_relocating());
}

#[test]
fn join_fails_without_an_identity_in_range() {
    let mut outbox = Outbox::new();
    let old_name = name(0b0110);
    let destination = name(0b1010);
    let mut peer = BootstrappingPeer::relocate(details(old_name), vec![conn(1)], signed_relocation(destination), &mut outbox);
    let binding = || Some(Signature { bytes: vec![7] });

    // No new identity at all.
    let material = JoinMaterial { new_full_id: None, relocation_proof: binding() };
    assert_eq!(
        peer.join_section(elders_info(Prefix::new(1, destination)), material),
        Err(RoutingError::InvalidNewId)
    );
    // A new identity that matches the destination in the section's prefix but not in the three bits after it.
    let material = JoinMaterial { new_full_id: Some(full_id(name(0b1011))), relocation_proof: binding() };
    assert_eq!(
        peer.join_section(elders_info(Prefix::new(1, destination)), material),
        Err(RoutingError::InvalidNewId)
    );
    // The node is as it was.
    assert_eq!(peer.name(), old_name);
    assert!(peer.is_relocating());
    assert!(peer.is_pending(addr(1)));
}

#[test]
fn join_of_a_relocated_node_fails_without_proof() {
    let mut outbox = Outbox::new();
    let old_name = name(0b0110);
    let destination = name(0b1010);
    let mut peer = BootstrappingPeer::relocate(details(old_name), vec![conn(1)], signed_relocation(destination), &mut outbox);
    let material = JoinMaterial { new_full_id: Some(full_id(name(0b1010))), relocation_proof: None };
    assert_eq!(
        peer.join_section(elders_info(Prefix::new(1, destination)), material),
        Err(RoutingError::MissingRelocationProof)
    );
    // The attempt has used up the order to relocate, and the node has its new name.
    assert_eq!(peer.name(), name(0b1010));
    assert!(!peer.is_relocating());
    assert_eq!(peer.get_destination(), name(0b1010));
    assert!(peer.is_pending(addr(1)));
}

#[test]
fn join_without_proof_keeps_a_name_that_fits() {
    let mut outbox = Outbox::new();
    let old_name = name(0b1010);
    let destination = XorName { hi: 0b1010u128 << 124, lo: 0x77 };
    let mut peer = BootstrappingPeer::relocate(details(old_name), vec![conn(1)], signed_relocation(destination), &mut outbox);
    assert_eq!(
        peer.join_section(elders_info(Prefix::new(1, destination)), no_material()),
        Err(RoutingError::MissingRelocationProof)
    );
    assert_eq!(peer.name(), old_name);
    assert!(!peer.is_relocating());
}

#[test]
fn the_name_of_a_joining_node_lies_in_the_section_that_answered() {
    let mut outbox = Outbox::new();
    let old_name = name(0b0111);
    let destination = name(0b1010);
    let mut peer = BootstrappingPeer::relocate(details(old_name), vec![conn(1)], signed_relocation(destination), &mut outbox);

    // The section `01` has answered, which does not hold the destination. The
    // range is its prefix, followed by the bits 2, 3 and 4 of the destination.
    let section = Prefix::new(2, name(0b0100));
    let range = Prefix::new(5, XorName { hi: 0b01100u128 << 123, lo: 0 });
    let needs = peer.join_requirements(&elders_info(section));
    assert_eq!(needs.name_range, Some(range));
    assert!(section.matches(&range.name()));

    // A name in the destination's own range is of no use there.
    let binding = || Some(Signature { bytes: vec![7] });
    let material = JoinMaterial { new_full_id: Some(full_id(destination)), relocation_proof: binding() };
    assert_eq!(peer.join_section(elders_info(section), material), Err(RoutingError::InvalidNewId));
    assert_eq!(peer.name(), old_name);
    assert!(peer.is_relocating());

    let new_name = XorName { hi: 0b01100u128 << 123, lo: 0x1234 };
    let material = JoinMaterial { new_full_id: Some(full_id(new_name)), relocation_proof: binding() };
    assert!(peer.join_section(elders_info(section), material).is_ok());
    assert_eq!(peer.name(), new_name);
    assert!(section.matches(&peer.name()));
}

#[test]
fn a_node_that_is_not_relocated_joins_the_section_that_answered() {
    let mut outbox = Outbox::new();
    let ours = name(0b0110);
    let mut peer = BootstrappingPeer::new(details(ours), &mut outbox);
    // The section `1` has answered: the node needs a name in `1`, followed by
    // the bits 1, 2 and 3 of its own name.
    let section = Prefix::new(1, name(0b1000));
    let needs = peer.join_requirements(&elders_info(section));
    assert_eq!(needs.name_range, Some(Prefix::new(4, name(0b1110))));
    assert!(!needs.needs_relocation_proof);
    let material = JoinMaterial { new_full_id: Some(full_id(name(0b1110))), relocation_proof: None };
    let transition = peer.join_section(elders_info(section), material);
    assert_eq!(transition, Ok(Transition::IntoJoining { info: elders_info(section), relocate_payload: None }));
    assert_eq!(peer.name(), name(0b1110));
}

#[test]
fn join_range_stops_at_the_width_of_a_name() {
    let mut outbox = Outbox::new();
    let destination = XorName { hi: 5, lo: 6 };
    let peer = BootstrappingPeer::relocate(details(name(0b0110)), vec![], signed_relocation(destination), &mut outbox);
    let info = elders_info(Prefix::new(255, destination));
    let needs = peer.join_requirements(&info);
    assert_eq!(needs.name_range, Some(Prefix::new(256, destination)));
}

#[test]
fn rebootstrap_drops_the_contacts_and_asks_the_new_ones() {
    let mut outbox = Outbox::new();
    let ours = name(0b0110);
    let mut peer = BootstrappingPeer::new(details(ours), &mut outbox);
    let _ = peer.handle_bootstrapped_to(conn(1), &mut outbox);
    let sent = outbox.commands.len();

    let msg = response(name(1), BootstrapResponse::Rebootstrap(vec![conn(2), conn(3)]));
    assert_eq!(peer.handle_message(Some(conn(1)), msg, no_material(), &mut outbox), Ok(Transition::Stay));
    assert_eq!(
        outbox.commands[sent..],
        [
            Command::DisconnectAll,
            Command::Schedule { token: 1, duration: 20_000 },
            Command::SendDirect { dst: conn(2), variant: Variant::BootstrapRequest(ours) },
            Command::Schedule { token: 2, duration: 20_000 },
            Command::SendDirect { dst: conn(3), variant: Variant::BootstrapRequest(ours) },
        ]
    );
    assert!(!peer.is_pending(addr(1)));
    assert!(peer.is_pending(addr(2)));
    assert!(peer.is_pending(addr(3)));
    assert!(!peer.peer_map().is_connected(addr(1)));
    assert_eq!(peer.timeout_target(0), None);
    assert_eq!(peer.timeout_target(2), Some(addr(3)));
}

#[test]
fn send_message_before_bootstrap_is_dropped_and_reported_as_the_host_chose() {
    let mut outbox = Outbox::new();
    let mut lenient = BootstrappingPeer::new(details(name(1)), &mut outbox);
    assert_eq!(
        lenient.handle_send_message(SrcLocation::Node(name(1)), DstLocation::Node(name(2)), vec![1]),
        Ok(())
    );
    let mut strict_details = details(name(1));
    strict_details.config =
        LifecycleConfig { send_before_bootstrap_is_error: true, on_join_timeout: JoinTimeoutPolicy::Rebootstrap };
    let mut strict = BootstrappingPeer::new(strict_details, &mut outbox);
    assert_eq!(
        strict.handle_send_message(SrcLocation::Node(name(1)), DstLocation::Node(name(2)), vec![1]),
        Err(RoutingError::InvalidStateForOperation)
    );
}

#[test]
fn bootstrapping_node_is_addressed_only_directly() {
    let mut outbox = Outbox::new();
    let mut peer = BootstrappingPeer::new(details(name(1)), &mut outbox);
    assert!(peer.in_dst_location(&DstLocation::Direct));
    assert!(!peer.in_dst_location(&DstLocation::Node(name(1))));
    assert!(!peer.in_dst_location(&DstLocation::Section(name(1))));
    assert!(!peer.in_dst_location(&DstLocation::PrefixSection(Prefix::default())));
    let msg = MessageWithBytes::new(DstLocation::Node(name(1)), vec![], Digest256 { hi: 0, lo: 0 });
    assert!(peer.filter_incoming_message(&msg));
    assert!(peer.filter_incoming_message(&msg));
    assert_eq!(peer.relay_message(&msg), Ok(()));
}

#[test]
fn bootstrapping_node_accepts_fully_verified_messages_only() {
    let mut outbox = Outbox::new();
    let peer = BootstrappingPeer::new(details(name(1)), &mut outbox);
    assert_eq!(peer.verify_message(Ok(VerifyStatus::Full)), Ok(true));
    assert_eq!(peer.verify_message(Ok(VerifyStatus::ProofTooNew)), Err(RoutingError::UntrustedMessage));
    assert_eq!(peer.verify_message(Err(RoutingError::FailedSignature)), Err(RoutingError::FailedSignature));
}

#[test]
fn into_joining_schedules_the_timeout_and_asks_the_elders() {
    let mut outbox = Outbox::new();
    let ours = name(0b0110);
    let mut peer = BootstrappingPeer::new(details(ours), &mut outbox);
    let _ = peer.handle_bootstrapped_to(conn(1), &mut outbox);
    let sent = outbox.commands.len();

    let elders = vec![
        P2pNode::new(PublicId { name: name(0b0100), public_key: PublicKey { hi: 0, lo: 1 } }, conn(10)),
        P2pNode::new(PublicId { name: name(0b0101), public_key: PublicKey { hi: 0, lo: 2 } }, conn(11)),
    ];
    let info = EldersInfo::new(elders, Prefix::new(1, ours), 4);
    let state = peer.into_joining(info, None, &mut outbox);
    assert!(matches!(state, Ok(State::JoiningPeer(_))));
    assert_eq!(
        outbox.commands[sent..],
        [
            Command::Schedule { token: 1, duration: JOIN_TIMEOUT },
            Command::SendDirectToAll {
                dsts: vec![conn(10), conn(11)],
                variant: Variant::JoinRequest(routing::messages::JoinRequest { elders_version: 4, relocate_payload: None }),
            },
        ]
    );
}
