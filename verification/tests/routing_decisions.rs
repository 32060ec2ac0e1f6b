use routing::chain::EldersInfo;
use routing::crypto::Digest256;
use routing::event::Event;
use routing::id::{PublicId, PublicKey};
use routing::location::{DstLocation, SrcLocation};
use routing::messages::MessageWithBytes;
use routing::outbox::{Command, Outbox};
use routing::p2p_node::{ConnectionInfo, P2pNode, PeerAddr};
use routing::prefix::Prefix;
use routing::routing::{closest_elder, matching_bits, Routed};
use routing::routing_message_filter::RoutingMessageFilter;
use routing::section_chain::Chain;
use routing::xor_name::XorName;

const ELDER_SIZE: usize = 3;
const INCOMING_TTL: u64 = 1_200_000;

fn prefix(bits: &str) -> Prefix {
    let mut p = Prefix::default();
    for c in bits.chars() {
        p = p.pushed(c == '1');
    }
    p
}

fn name(bits: &str, tag: u128) -> XorName {
    let start = prefix(bits).name();
    XorName { hi: start.hi, lo: start.lo | tag }
}

fn node(name: XorName) -> P2pNode {
    P2pNode::new(
        PublicId { name, public_key: PublicKey { hi: name.hi, lo: name.lo } },
        ConnectionInfo { peer_addr: PeerAddr { ip: name.hi ^ name.lo, port: 5000 } },
    )
}

fn section(bits: &str, version: u64, count: u128) -> EldersInfo {
    EldersInfo::new((1..=count).map(|tag| node(name(bits, tag))).collect(), prefix(bits), version)
}

fn conns(bits: &str, tags: &[u128]) -> Vec<ConnectionInfo> {
    tags.iter().map(|tag| node(name(bits, *tag)).connection_info).collect()
}

/// The chain of the elder `00…1` in a network of the sections `00`, `01`, `10` and `11`.
fn elder_chain() -> Chain {
    Chain::new(
        ELDER_SIZE,
        name("00", 1),
        section("00", 4, 3),
        vec![section("01", 2, 3), section("10", 7, 3)],
    )
    .expect("the knowledge obeys the rules")
}

fn message(n: u128, dst: DstLocation) -> MessageWithBytes {
    MessageWithBytes::new(dst, vec![n as u8], Digest256 { hi: n, lo: n })
}

fn src() -> SrcLocation {
    SrcLocation::Node(name("11", 5))
}

#[test]
fn matching_bits_counts_the_bits_of_the_prefix_that_the_name_starts_with() {
    assert_eq!(matching_bits(&prefix("0110"), &name("0110", 1)), 4);
    assert_eq!(matching_bits(&prefix("0110"), &name("0111", 1)), 3);
    assert_eq!(matching_bits(&prefix("0110"), &name("1110", 1)), 0);
    assert_eq!(matching_bits(&prefix("01"), &name("0110", 1)), 2);
    assert_eq!(matching_bits(&prefix(""), &name("0110", 1)), 0);
}

#[test]
fn closest_elder_is_the_nearest_in_xor_distance() {
    let info = section("01", 1, 5);
    assert_eq!(closest_elder(&info, &name("01", 4)), Some(name("01", 4)));
    // 6 ^ 7 = 1 is out of reach; 6 ^ 4 = 2 beats 6 ^ 5 = 3.
    assert_eq!(closest_elder(&info, &name("01", 6)), Some(name("01", 4)));
    assert_eq!(closest_elder(&info, &name("11", 0)), Some(name("01", 1)));
    assert_eq!(closest_elder(&EldersInfo::new(vec![], prefix("01"), 1), &name("01", 4)), None);
}

#[test]
fn next_hops_are_the_elders_of_the_closest_section() {
    let chain = elder_chain();
    let hops = |dst: DstLocation| -> Vec<ConnectionInfo> {
        chain.next_hops(&dst).iter().map(|hop| hop.connection_info).collect()
    };
    // Our own section, without ourselves.
    assert_eq!(hops(DstLocation::Node(name("00", 9))), conns("00", &[2, 3]));
    assert_eq!(hops(DstLocation::Section(name("00", 9))), conns("00", &[2, 3]));
    // The neighbours whose prefix matches.
    assert_eq!(hops(DstLocation::Node(name("01", 9))), conns("01", &[1, 2, 3]));
    assert_eq!(hops(DstLocation::Section(name("10", 9))), conns("10", &[1, 2, 3]));
    // `11` is unknown: `10` matches it in one bit, the others in none.
    assert_eq!(hops(DstLocation::Node(name("11", 9))), conns("10", &[1, 2, 3]));
    assert_eq!(hops(DstLocation::PrefixSection(prefix("11"))), conns("10", &[1, 2, 3]));
    assert_eq!(hops(DstLocation::PrefixSection(prefix("01"))), conns("01", &[1, 2, 3]));
    // A direct message is not routed.
    assert!(hops(DstLocation::Direct).is_empty());
}

#[test]
fn between_sections_that_match_equally_far_the_closer_elder_decides() {
    // The elder `00…1` knows `01` and the halves `100` and `101` of `10`, and nothing of `11`.
    let chain = Chain::new(
        ELDER_SIZE,
        name("00", 1),
        section("00", 4, 3),
        vec![section("01", 2, 3), section("100", 7, 3), section("101", 7, 3)],
    )
    .expect("the knowledge obeys the rules");
    let hops = |target: XorName| -> Vec<XorName> {
        chain.next_hops(&DstLocation::Node(target)).iter().map(|hop| hop.name()).collect()
    };
    // A name in `11` matches `100` and `101` in one bit each. The third bit decides which elders are closer.
    assert_eq!(hops(name("110", 9)), vec![name("100", 1), name("100", 2), name("100", 3)]);
    assert_eq!(hops(name("111", 9)), vec![name("101", 1), name("101", 2), name("101", 3)]);
    // A name in `10` is matched further by its own half.
    assert_eq!(hops(name("101", 9)), vec![name("101", 1), name("101", 2), name("101", 3)]);
}

#[test]
fn a_message_for_us_is_delivered() {
    let chain = elder_chain();
    let mut filter = RoutingMessageFilter::new();
    let mut outbox = Outbox::new();
    let to_us = DstLocation::Node(name("00", 1));
    assert_eq!(chain.route(&mut filter, &message(1, to_us), src(), vec![42], 0, &mut outbox), Routed::Delivered);
    let to_our_section = DstLocation::Section(name("00", 200));
    assert_eq!(chain.route(&mut filter, &message(2, to_our_section), src(), vec![43], 0, &mut outbox), Routed::Delivered);
    let to_our_half = DstLocation::PrefixSection(prefix("0"));
    assert_eq!(chain.route(&mut filter, &message(3, to_our_half), src(), vec![44], 0, &mut outbox), Routed::Delivered);
    assert_eq!(chain.route(&mut filter, &message(4, DstLocation::Direct), src(), vec![45], 0, &mut outbox), Routed::Delivered);
    assert_eq!(
        outbox.events,
        vec![
            Event::MessageReceived { src: src(), dst: to_us, content: vec![42] },
            Event::MessageReceived { src: src(), dst: to_our_section, content: vec![43] },
            Event::MessageReceived { src: src(), dst: to_our_half, content: vec![44] },
            Event::MessageReceived { src: src(), dst: DstLocation::Direct, content: vec![45] },
        ]
    );
    assert!(outbox.commands.is_empty());
    // The same message again is dropped, unless it is direct.
    assert_eq!(chain.route(&mut filter, &message(1, to_us), src(), vec![42], 1, &mut outbox), Routed::Dropped);
    assert_eq!(chain.route(&mut filter, &message(4, DstLocation::Direct), src(), vec![45], 1, &mut outbox), Routed::Delivered);
    assert_eq!(outbox.events.len(), 5);
}

#[test]
fn dedup_on_fan_out() {
    let chain = elder_chain();
    let mut filter = RoutingMessageFilter::new();
    let mut outbox = Outbox::new();
    let x = name("01", 77);
    let m = message(1, DstLocation::Node(x));
    let elders = conns("01", &[1, 2, 3]);

    // The message is forwarded to the three elders of the section of X.
    assert_eq!(chain.route(&mut filter, &m, src(), vec![1], 1_000, &mut outbox), Routed::Forwarded(3));
    assert_eq!(outbox.commands, vec![Command::Forward { dsts: elders.clone() }]);

    // A second delivery of the message produces no further sends.
    assert_eq!(chain.route(&mut filter, &m, src(), vec![1], 2_000, &mut outbox), Routed::Dropped);
    assert_eq!(outbox.commands.len(), 1);

    // A retransmit after the time to live, counted from the latest delivery,
    // produces sends again, to the same elders.
    assert_eq!(chain.route(&mut filter, &m, src(), vec![1], 1_000 + INCOMING_TTL + 1, &mut outbox), Routed::Dropped);
    assert_eq!(outbox.commands.len(), 1);
    let later = 1_000 + 2 * INCOMING_TTL + 2;
    assert_eq!(chain.route(&mut filter, &m, src(), vec![1], later, &mut outbox), Routed::Forwarded(3));
    assert_eq!(outbox.commands, vec![Command::Forward { dsts: elders.clone() }, Command::Forward { dsts: elders }]);
    assert!(outbox.events.is_empty());
}

#[test]
fn the_outgoing_filter_holds_back_what_a_peer_has_got() {
    let chain = elder_chain();
    let mut filter = RoutingMessageFilter::new();
    let mut outbox = Outbox::new();
    let m = message(1, DstLocation::Node(name("01", 77)));
    // The second elder of `01` has got the message from us already.
    let second = node(name("01", 2));
    assert!(filter.filter_outgoing_at(&m, &second.public_id, 0).is_new());
    assert_eq!(chain.route(&mut filter, &m, src(), vec![1], 10, &mut outbox), Routed::Forwarded(2));
    assert_eq!(outbox.commands, vec![Command::Forward { dsts: conns("01", &[1, 3]) }]);

    // Where every hop has got it, nothing is sent.
    let again = MessageWithBytes::new(DstLocation::Section(name("01", 5)), vec![], Digest256 { hi: 1, lo: 1 });
    let mut fresh_incoming = RoutingMessageFilter::new();
    for tag in 1..=3 {
        assert!(fresh_incoming.filter_outgoing_at(&again, &node(name("01", tag)).public_id, 0).is_new());
    }
    assert_eq!(chain.route(&mut fresh_incoming, &again, src(), vec![1], 10, &mut outbox), Routed::Forwarded(0));
    assert_eq!(outbox.commands.len(), 1);
}
