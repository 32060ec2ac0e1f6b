use routing::chain::EldersInfo;
use routing::crypto::Digest256;
use routing::id::{PublicId, PublicKey};
use routing::p2p_node::{ConnectionInfo, P2pNode, PeerAddr};
use routing::prefix::Prefix;
use routing::signature_accumulator::SignatureAccumulator;
use routing::xor_name::XorName;

fn name(n: u128) -> XorName {
    XorName { hi: n, lo: n }
}

fn elders(count: u128) -> EldersInfo {
    let member = |n: u128| {
        P2pNode::new(
            PublicId { name: name(n), public_key: PublicKey { hi: 0, lo: n } },
            ConnectionInfo { peer_addr: PeerAddr { ip: n, port: 1 } },
        )
    };
    EldersInfo::new((1..=count).map(member).collect(), Prefix::default(), 1)
}

fn digest(n: u128) -> Digest256 {
    Digest256 { hi: n, lo: 0 }
}

#[test]
fn a_message_is_complete_at_the_quorum() {
    let mut accumulator = SignatureAccumulator::new();
    let section = elders(7);
    assert_eq!(accumulator.signature_count(&digest(1)), 0);
    for signer in 1..=4 {
        assert!(!accumulator.add_signature(&digest(1), name(signer), &section, 5));
        assert_eq!(accumulator.signature_count(&digest(1)), signer as usize);
    }
    assert!(accumulator.add_signature(&digest(1), name(5), &section, 5));
    // A complete message is forgotten: what comes later starts a new collection.
    assert_eq!(accumulator.signature_count(&digest(1)), 0);
    assert!(!accumulator.add_signature(&digest(1), name(6), &section, 5));
    assert_eq!(accumulator.signature_count(&digest(1)), 1);
}

#[test]
fn a_signer_counts_once() {
    let mut accumulator = SignatureAccumulator::new();
    let section = elders(3);
    assert!(!accumulator.add_signature(&digest(1), name(1), &section, 2));
    assert!(!accumulator.add_signature(&digest(1), name(1), &section, 2));
    assert_eq!(accumulator.signature_count(&digest(1)), 1);
    assert!(accumulator.add_signature(&digest(1), name(2), &section, 2));
}

#[test]
fn only_elders_count() {
    let mut accumulator = SignatureAccumulator::new();
    let section = elders(3);
    assert!(!accumulator.add_signature(&digest(1), name(9), &section, 1));
    assert_eq!(accumulator.signature_count(&digest(1)), 0);
    assert!(accumulator.add_signature(&digest(1), name(3), &section, 1));
}

#[test]
fn messages_are_collected_apart() {
    let mut accumulator = SignatureAccumulator::new();
    let section = elders(3);
    assert!(!accumulator.add_signature(&digest(1), name(1), &section, 2));
    assert!(!accumulator.add_signature(&digest(2), name(2), &section, 2));
    assert!(!accumulator.add_signature(&digest(3), name(2), &section, 3));
    assert_eq!(accumulator.signature_count(&digest(1)), 1);
    assert_eq!(accumulator.signature_count(&digest(2)), 1);
    assert!(accumulator.add_signature(&digest(2), name(3), &section, 2));
    assert_eq!(accumulator.signature_count(&digest(1)), 1);
    assert_eq!(accumulator.signature_count(&digest(2)), 0);
    assert_eq!(accumulator.signature_count(&digest(3)), 1);
}

#[test]
fn a_quorum_of_nothing_is_met_by_the_first_elder() {
    let mut accumulator = SignatureAccumulator::new();
    assert!(accumulator.add_signature(&digest(1), name(1), &elders(3), 0));
    assert!(!accumulator.add_signature(&digest(1), name(8), &elders(3), 0));
}
