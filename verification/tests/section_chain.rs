use routing::chain::EldersInfo;
use routing::event::Event;
use routing::id::{PublicId, PublicKey};
use routing::invariants::{verify_invariant_for_all_nodes, NodeView, NodeViolation};
use routing::outbox::Outbox;
use routing::p2p_node::{ConnectionInfo, P2pNode, PeerAddr};
use routing::partition::sanity_check;
use routing::prefix::Prefix;
use routing::section_chain::{Chain, SplitError};
use routing::xor_name::XorName;

const ELDER_SIZE: usize = 3;

fn prefix(bits: &str) -> Prefix {
    let mut p = Prefix::default();
    for c in bits.chars() {
        p = p.pushed(c == '1');
    }
    p
}

fn name(bits: &str, tag: u128) -> XorName {
    let start = prefix(bits).name();
    XorName { hi: start.hi, lo: start.lo | tag }
}

fn node(name: XorName) -> P2pNode {
    P2pNode::new(
        PublicId { name, public_key: PublicKey { hi: name.hi, lo: name.lo } },
        ConnectionInfo { peer_addr: PeerAddr { ip: name.hi ^ name.lo, port: 5000 } },
    )
}

fn section(bits: &str, version: u64, count: u128) -> EldersInfo {
    EldersInfo::new((1..=count).map(|tag| node(name(bits, tag))).collect(), prefix(bits), version)
}

fn view_of(chain: &Chain) -> NodeView {
    NodeView {
        name: chain.name(),
        is_elder: chain.is_elder(),
        our_section: chain.our_info().duplicate(),
        neighbours: chain.neighbour_infos().iter().map(|info| info.duplicate()).collect(),
    }
}

/// The chain of the elder `00…1` in a network of the sections `00`, `01` and `1`.
fn elder_chain() -> Chain {
    Chain::new(ELDER_SIZE, name("00", 1), section("00", 4, 3), vec![section("01", 2, 3), section("1", 7, 4)])
        .expect("the knowledge obeys the rules")
}

#[test]
fn single_section_genesis() {
    let first = node(name("", 1));
    let chain = Chain::genesis(7, first);
    assert!(chain.is_elder());
    assert_eq!(chain.our_prefix(), Prefix::default());
    assert_eq!(chain.our_info().members(), &vec![first]);
    assert_eq!(chain.our_info().version(), 0);
    assert!(chain.neighbour_prefixes().is_empty());
    assert_eq!(chain.name(), first.name());
    assert_eq!(chain.elder_size(), 7);
    assert_eq!(chain.check(), Ok(()));
    assert_eq!(verify_invariant_for_all_nodes(&vec![view_of(&chain)], 7), Ok(()));
}

#[test]
fn grow_to_safe_section_size_without_split() {
    let safe_section_size: u128 = 30;
    let mut outbox = Outbox::new();
    let members: Vec<P2pNode> = (1..=safe_section_size).map(|tag| node(name("", tag << 100))).collect();

    // The first node starts the network; each node that joins gives the section a new version.
    let mut chains = vec![Chain::genesis(7, members[0])];
    for joined in 2..=members.len() {
        let version = joined as u64 - 1;
        let info = || EldersInfo::new(members[..joined].to_vec(), Prefix::default(), version);
        for chain in chains.iter_mut() {
            assert_eq!(chain.update_our_section(info(), vec![], &mut outbox), Ok(true));
        }
        chains.push(Chain::new(7, members[joined - 1].name(), info(), vec![]).expect("the new node knows its section"));
        let views: Vec<NodeView> = chains.iter().map(view_of).collect();
        assert_eq!(verify_invariant_for_all_nodes(&views, 7), Ok(()));
    }

    assert_eq!(chains.len(), 30);
    for chain in &chains {
        assert!(chain.is_elder());
        assert_eq!(chain.our_prefix(), Prefix::default());
        assert!(chain.neighbour_prefixes().is_empty());
        assert_eq!(chain.check(), Ok(()));
    }
    // Nobody was promoted or demoted on the way: everybody was an elder from the start.
    assert!(outbox.events.is_empty());
}

#[test]
fn forced_split_at_prefix_lengths_one_and_one() {
    assert_eq!(sanity_check(&[1, 1]), Ok(()));
    let per_half: u128 = 30;
    let zeros: Vec<P2pNode> = (1..=per_half).map(|tag| node(name("0", tag))).collect();
    let ones: Vec<P2pNode> = (1..=per_half).map(|tag| node(name("1", tag))).collect();
    let everyone: Vec<P2pNode> = zeros.iter().chain(ones.iter()).copied().collect();
    let whole = || EldersInfo::new(everyone.clone(), Prefix::default(), 59);
    let zero = || EldersInfo::new(zeros.clone(), prefix("0"), 60);
    let one = || EldersInfo::new(ones.clone(), prefix("1"), 60);

    let mut chains: Vec<Chain> =
        everyone.iter().map(|member| Chain::new(7, member.name(), whole(), vec![]).expect("one section")).collect();
    let mut views = Vec::new();
    for chain in chains.iter_mut() {
        let mut outbox = Outbox::new();
        assert_eq!(chain.split(zero(), one(), &mut outbox), Ok(()));
        let half = if chain.name().bit(0) { prefix("1") } else { prefix("0") };
        assert_eq!(outbox.events, vec![Event::SectionSplit(half)]);
        assert_eq!(chain.our_prefix(), half);
        assert_eq!(chain.neighbour_prefixes(), vec![half.sibling()]);
        assert_eq!(chain.check(), Ok(()));
        views.push(view_of(chain));
    }
    assert_eq!(verify_invariant_for_all_nodes(&views, 7), Ok(()));
}

#[test]
fn chain_is_made_only_from_knowledge_that_obeys_the_rules() {
    assert!(Chain::new(ELDER_SIZE, name("00", 1), section("00", 4, 3), vec![section("01", 2, 3), section("1", 7, 4)]).is_ok());
    assert_eq!(
        Chain::new(ELDER_SIZE, name("01", 1), section("00", 4, 3), vec![]).err(),
        Some(NodeViolation::PrefixMismatch)
    );
    assert_eq!(
        Chain::new(ELDER_SIZE, name("00", 1), section("00", 4, 3), vec![section("01", 2, 3)]).err(),
        Some(NodeViolation::NeighbourNotCovered)
    );
    // A node that is not among the elders of its section is an adult and knows no neighbour.
    let adult = Chain::new(ELDER_SIZE, name("00", 77), section("00", 4, 3), vec![]).expect("an adult");
    assert!(!adult.is_elder());
    assert_eq!(
        Chain::new(ELDER_SIZE, name("00", 77), section("00", 4, 3), vec![section("01", 2, 3), section("1", 7, 4)]).err(),
        Some(NodeViolation::AdultWithNeighbours)
    );
}

#[test]
fn a_neighbour_is_replaced_only_by_a_newer_version() {
    let mut chain = elder_chain();
    // The same version and an older one are stale.
    assert_eq!(chain.update_neighbour(section("1", 7, 5)), Ok(false));
    assert_eq!(chain.update_neighbour(section("1", 6, 5)), Ok(false));
    assert_eq!(chain.neighbour_infos()[1], section("1", 7, 4));
    // A newer one takes its place.
    assert_eq!(chain.update_neighbour(section("1", 8, 5)), Ok(true));
    assert_eq!(chain.neighbour_infos(), &vec![section("01", 2, 3), section("1", 8, 5)]);
    assert_eq!(chain.check(), Ok(()));
}

#[test]
fn a_new_neighbour_is_added() {
    let mut chain = elder_chain();
    assert_eq!(chain.update_neighbour(section("10", 9, 3)), Ok(true));
    assert_eq!(chain.neighbour_prefixes(), vec![prefix("01"), prefix("1"), prefix("10")]);
    assert_eq!(chain.check(), Ok(()));
}

#[test]
fn an_update_that_would_break_a_rule_is_refused() {
    let mut chain = elder_chain();
    assert_eq!(chain.update_neighbour(section("11", 9, 2)), Err(NodeViolation::NeighbourTooSmall));
    assert_eq!(chain.update_neighbour(section("0", 9, 3)), Err(NodeViolation::CompatibleNeighbour));
    assert_eq!(chain.update_neighbour(section("1", 9, 2)), Err(NodeViolation::NeighbourTooSmall));
    let stray = EldersInfo::new(vec![node(name("1", 1)), node(name("1", 2)), node(name("0", 3))], prefix("1"), 9);
    assert_eq!(chain.update_neighbour(stray), Err(NodeViolation::NeighbourElderOutsidePrefix));
    // The chain is as it was.
    assert_eq!(chain.neighbour_infos(), &vec![section("01", 2, 3), section("1", 7, 4)]);
    assert_eq!(chain.check(), Ok(()));
}

#[test]
fn an_adult_keeps_no_neighbours() {
    let mut adult = Chain::new(ELDER_SIZE, name("00", 77), section("00", 4, 3), vec![]).expect("an adult");
    assert_eq!(adult.update_neighbour(section("01", 2, 3)), Ok(false));
    assert!(adult.neighbour_prefixes().is_empty());
}

#[test]
fn our_section_is_replaced_only_by_a_newer_version_of_itself() {
    let mut chain = elder_chain();
    let mut outbox = Outbox::new();
    assert_eq!(chain.update_our_section(section("00", 4, 5), vec![], &mut outbox), Ok(false));
    assert_eq!(chain.update_our_section(section("00", 3, 5), vec![], &mut outbox), Ok(false));
    assert_eq!(chain.update_our_section(section("01", 9, 5), vec![], &mut outbox), Ok(false));
    assert_eq!(chain.our_info(), &section("00", 4, 3));
    assert_eq!(chain.update_our_section(section("00", 5, 5), vec![], &mut outbox), Ok(true));
    assert_eq!(chain.our_info(), &section("00", 5, 5));
    assert!(chain.is_elder());
    assert_eq!(chain.neighbour_prefixes(), vec![prefix("01"), prefix("1")]);
    assert!(outbox.events.is_empty());
    assert_eq!(chain.update_our_section(section("00", 6, 2), vec![], &mut outbox), Err(NodeViolation::SectionTooSmall));
    assert_eq!(chain.our_info(), &section("00", 5, 5));
}

#[test]
fn demotion_and_promotion_are_announced() {
    let mut chain = elder_chain();
    let mut outbox = Outbox::new();
    // The elders of the new version are the nodes 2 to 4: node 1 is demoted and forgets its neighbours.
    let without_us = EldersInfo::new((2..=4).map(|tag| node(name("00", tag))).collect(), prefix("00"), 5);
    assert_eq!(chain.update_our_section(without_us, vec![], &mut outbox), Ok(true));
    assert!(!chain.is_elder());
    assert!(chain.neighbour_prefixes().is_empty());
    assert_eq!(outbox.events, vec![Event::Demoted]);

    // A promotion without knowledge of the neighbours would break the rules.
    assert_eq!(
        chain.update_our_section(section("00", 6, 3), vec![], &mut outbox),
        Err(NodeViolation::NeighbourNotCovered)
    );
    assert!(!chain.is_elder());
    assert_eq!(outbox.events, vec![Event::Demoted]);

    // With it the node is an elder again.
    let neighbours = vec![section("01", 2, 3), section("1", 7, 4)];
    assert_eq!(chain.update_our_section(section("00", 6, 3), neighbours, &mut outbox), Ok(true));
    assert!(chain.is_elder());
    assert_eq!(chain.neighbour_prefixes(), vec![prefix("01"), prefix("1")]);
    assert_eq!(outbox.events, vec![Event::Demoted, Event::Promoted]);
    assert_eq!(chain.check(), Ok(()));
}

#[test]
fn split_keeps_the_neighbours_that_are_still_neighbours() {
    // The elder `00…1` of the section `0`, whose neighbours are `10` and `11`.
    let mut chain = Chain::new(ELDER_SIZE, name("00", 1), section("0", 4, 6), vec![section("10", 2, 3), section("11", 7, 4)])
        .expect("the knowledge obeys the rules");
    let zero = EldersInfo::new((1..=3).map(|tag| node(name("00", tag))).collect(), prefix("00"), 5);
    let one = EldersInfo::new((1..=3).map(|tag| node(name("01", tag))).collect(), prefix("01"), 5);
    let mut outbox = Outbox::new();
    assert_eq!(chain.split(zero, one, &mut outbox), Ok(()));
    assert_eq!(chain.our_prefix(), prefix("00"));
    // `11` differs from `00` in two bits and is no neighbour any more; the other half is one.
    assert_eq!(chain.neighbour_prefixes(), vec![prefix("10"), prefix("01")]);
    assert_eq!(outbox.events, vec![Event::SectionSplit(prefix("00"))]);
    assert_eq!(chain.check(), Ok(()));
}

#[test]
fn split_needs_the_two_halves_of_our_section() {
    let mut chain = elder_chain();
    let mut outbox = Outbox::new();
    assert_eq!(chain.split(section("001", 5, 3), section("000", 5, 3), &mut outbox), Err(SplitError::NotOurHalves));
    assert_eq!(chain.split(section("000", 5, 3), section("01", 5, 3), &mut outbox), Err(SplitError::NotOurHalves));
    assert_eq!(chain.split(section("000", 3, 3), section("001", 5, 3), &mut outbox), Err(SplitError::StaleVersion));
    assert_eq!(chain.split(section("000", 5, 3), section("001", 3, 3), &mut outbox), Err(SplitError::StaleVersion));
    assert_eq!(
        chain.split(section("000", 5, 3), section("001", 5, 2), &mut outbox),
        Err(SplitError::Violation(NodeViolation::NeighbourTooSmall))
    );
    assert_eq!(chain.our_prefix(), prefix("00"));
    assert!(outbox.events.is_empty());
    // The halves may have the version that the section had.
    assert_eq!(chain.split(section("000", 4, 3), section("001", 4, 3), &mut outbox), Ok(()));
    assert_eq!(chain.our_prefix(), prefix("000"));
}

#[test]
fn split_can_demote() {
    let mut chain = elder_chain();
    let mut outbox = Outbox::new();
    let zero = EldersInfo::new((2..=4).map(|tag| node(name("000", tag))).collect(), prefix("000"), 5);
    assert_eq!(chain.split(zero, section("001", 5, 3), &mut outbox), Ok(()));
    assert!(!chain.is_elder());
    assert!(chain.neighbour_prefixes().is_empty());
    assert_eq!(outbox.events, vec![Event::SectionSplit(prefix("000")), Event::Demoted]);
}
