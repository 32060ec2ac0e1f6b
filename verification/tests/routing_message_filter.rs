use routing::crypto::Digest256;
use routing::id::{PublicId, PublicKey};
use routing::location::DstLocation;
use routing::messages::MessageWithBytes;
use routing::prefix::Prefix;
use routing::routing_message_filter::{
    FilteringResult, RoutingMessageFilter, INCOMING_EXPIRY_DURATION_SECS, OUTGOING_CAPACITY, OUTGOING_EXPIRY_DURATION_SECS,
};
use routing::xor_name::XorName;

const INCOMING_TTL: u64 = 1_200_000;
const OUTGOING_TTL: u64 = 600_000;

fn message(n: u128, dst: DstLocation) -> MessageWithBytes {
    MessageWithBytes::new(dst, vec![n as u8], Digest256 { hi: n, lo: n + 1 })
}

fn routed(n: u128) -> MessageWithBytes {
    message(n, DstLocation::Node(XorName { hi: 9, lo: 9 }))
}

fn peer(n: u128) -> PublicId {
    PublicId { name: XorName { hi: n, lo: 0 }, public_key: PublicKey { hi: 0, lo: n } }
}

#[test]
fn is_new_tells_the_two_results_apart() {
    assert!(FilteringResult::NewMessage.is_new());
    assert!(!FilteringResult::KnownMessage.is_new());
}

#[test]
fn expiry_durations_are_twenty_and_ten_minutes() {
    assert_eq!(INCOMING_EXPIRY_DURATION_SECS, 1_200);
    assert_eq!(OUTGOING_EXPIRY_DURATION_SECS, 600);
    assert_eq!(INCOMING_EXPIRY_DURATION_SECS * 1_000, INCOMING_TTL);
    assert_eq!(OUTGOING_EXPIRY_DURATION_SECS * 1_000, OUTGOING_TTL);
}

#[test]
fn message_with_bytes_keeps_what_it_was_made_of() {
    let msg = MessageWithBytes::new(DstLocation::Direct, vec![1, 2, 3], Digest256 { hi: 4, lo: 5 });
    assert_eq!(*msg.message_dst(), DstLocation::Direct);
    assert_eq!(*msg.full_crypto_hash(), Digest256 { hi: 4, lo: 5 });
    assert_eq!(*msg.full_bytes(), vec![1, 2, 3]);
}

#[test]
fn incoming_is_new_once_and_known_within_the_ttl() {
    let mut filter = RoutingMessageFilter::new();
    let msg = routed(1);
    assert_eq!(filter.filter_incoming_at(&msg, 1_000), FilteringResult::NewMessage);
    assert_eq!(filter.filter_incoming_at(&msg, 1_001), FilteringResult::KnownMessage);
    assert_eq!(filter.filter_incoming_at(&routed(2), 2_000), FilteringResult::NewMessage);
    assert_eq!(filter.filter_incoming_at(&msg, 1_000 + INCOMING_TTL), FilteringResult::KnownMessage);
}

#[test]
fn incoming_is_new_again_after_the_ttl() {
    let mut filter = RoutingMessageFilter::new();
    let msg = routed(1);
    assert_eq!(filter.filter_incoming_at(&msg, 1_000), FilteringResult::NewMessage);
    assert_eq!(filter.filter_incoming_at(&msg, 1_000 + INCOMING_TTL + 1), FilteringResult::NewMessage);
    assert_eq!(filter.filter_incoming_at(&msg, 1_000 + INCOMING_TTL + 2), FilteringResult::KnownMessage);
}

#[test]
fn incoming_tells_messages_apart_by_digest_alone() {
    let mut filter = RoutingMessageFilter::new();
    let to_node = message(5, DstLocation::Node(XorName { hi: 1, lo: 1 }));
    let to_section = message(5, DstLocation::Section(XorName { hi: 2, lo: 2 }));
    assert_eq!(filter.filter_incoming_at(&to_node, 0), FilteringResult::NewMessage);
    assert_eq!(filter.filter_incoming_at(&to_section, 0), FilteringResult::KnownMessage);
    let to_prefix = message(6, DstLocation::PrefixSection(Prefix::default()));
    assert_eq!(filter.filter_incoming_at(&to_prefix, 0), FilteringResult::NewMessage);
    assert_eq!(filter.filter_incoming_at(&to_prefix, 0), FilteringResult::KnownMessage);
}

#[test]
fn direct_messages_are_always_new_to_both_filters() {
    let mut filter = RoutingMessageFilter::default();
    let direct = message(3, DstLocation::Direct);
    for now in [0u64, 1, 2, 3] {
        assert_eq!(filter.filter_incoming_at(&direct, now), FilteringResult::NewMessage);
        assert_eq!(filter.filter_outgoing_at(&direct, &peer(1), now), FilteringResult::NewMessage);
        assert_eq!(filter.filter_incoming(&direct), FilteringResult::NewMessage);
        assert_eq!(filter.filter_outgoing(&direct, &peer(1)), FilteringResult::NewMessage);
    }
    // A direct message leaves no trace: the same digest sent on is new.
    let same_digest = routed(3);
    assert_eq!(filter.filter_incoming_at(&same_digest, 4), FilteringResult::NewMessage);
    assert_eq!(filter.filter_outgoing_at(&same_digest, &peer(1), 4), FilteringResult::NewMessage);
}

#[test]
fn outgoing_is_new_once_per_peer_within_the_ttl() {
    let mut filter = RoutingMessageFilter::new();
    let msg = routed(1);
    assert_eq!(filter.filter_outgoing_at(&msg, &peer(1), 100), FilteringResult::NewMessage);
    assert_eq!(filter.filter_outgoing_at(&msg, &peer(1), 101), FilteringResult::KnownMessage);
    // The same message may still go to another peer, and another message to the same peer.
    assert_eq!(filter.filter_outgoing_at(&msg, &peer(2), 102), FilteringResult::NewMessage);
    assert_eq!(filter.filter_outgoing_at(&routed(2), &peer(1), 103), FilteringResult::NewMessage);
    assert_eq!(filter.filter_outgoing_at(&msg, &peer(2), 104), FilteringResult::KnownMessage);
    assert_eq!(filter.filter_outgoing_at(&msg, &peer(1), 101 + OUTGOING_TTL), FilteringResult::KnownMessage);
}

#[test]
fn outgoing_is_new_again_after_the_ttl() {
    let mut filter = RoutingMessageFilter::new();
    let msg = routed(1);
    assert_eq!(filter.filter_outgoing_at(&msg, &peer(1), 100), FilteringResult::NewMessage);
    assert_eq!(filter.filter_outgoing_at(&msg, &peer(1), 100 + OUTGOING_TTL + 1), FilteringResult::NewMessage);
    assert_eq!(filter.filter_outgoing_at(&msg, &peer(1), 100 + OUTGOING_TTL + 2), FilteringResult::KnownMessage);
}

#[test]
fn outgoing_entry_lives_from_its_latest_insertion() {
    let mut filter = RoutingMessageFilter::new();
    let msg = routed(1);
    assert_eq!(filter.filter_outgoing_at(&msg, &peer(1), 0), FilteringResult::NewMessage);
    assert_eq!(filter.filter_outgoing_at(&msg, &peer(1), OUTGOING_TTL), FilteringResult::KnownMessage);
    assert_eq!(filter.filter_outgoing_at(&msg, &peer(1), 2 * OUTGOING_TTL), FilteringResult::KnownMessage);
    assert_eq!(filter.filter_outgoing_at(&msg, &peer(1), 3 * OUTGOING_TTL + 1), FilteringResult::NewMessage);
}

#[test]
fn outgoing_keeps_the_most_recent_pairs_when_full() {
    let mut filter = RoutingMessageFilter::new();
    let first = routed(1_000_000);
    assert_eq!(filter.filter_outgoing_at(&first, &peer(1), 0), FilteringResult::NewMessage);
    // One pair less than the filter has room for leaves the first pair in place.
    for n in 0..(OUTGOING_CAPACITY as u128 - 1) {
        assert_eq!(filter.filter_outgoing_at(&routed(n), &peer(1), 1), FilteringResult::NewMessage);
    }
    assert_eq!(filter.filter_outgoing_at(&first, &peer(1), 2), FilteringResult::KnownMessage);
    // The first pair is now the most recent one: it takes a whole capacity of others to push it out.
    for n in 0..(OUTGOING_CAPACITY as u128) {
        let _ = filter.filter_outgoing_at(&routed(2_000_000 + n), &peer(1), 3);
    }
    assert_eq!(filter.filter_outgoing_at(&first, &peer(1), 4), FilteringResult::NewMessage);
}

#[test]
fn a_message_that_failed_to_serialise_is_not_sent() {
    let mut filter = RoutingMessageFilter::new();
    assert_eq!(filter.filter_serialised_outgoing_at(None, &peer(1), 0), FilteringResult::KnownMessage);
    let msg = routed(1);
    assert_eq!(filter.filter_serialised_outgoing_at(Some(&msg), &peer(1), 0), FilteringResult::NewMessage);
    assert_eq!(filter.filter_serialised_outgoing_at(Some(&msg), &peer(1), 1), FilteringResult::KnownMessage);
}

#[test]
fn filters_on_the_machine_clock_know_a_message_at_once() {
    let mut filter = RoutingMessageFilter::new();
    let msg = routed(1);
    assert_eq!(filter.filter_incoming(&msg), FilteringResult::NewMessage);
    assert_eq!(filter.filter_incoming(&msg), FilteringResult::KnownMessage);
    assert_eq!(filter.filter_outgoing(&msg, &peer(1)), FilteringResult::NewMessage);
    assert_eq!(filter.filter_outgoing(&msg, &peer(1)), FilteringResult::KnownMessage);
    assert_eq!(filter.filter_outgoing(&msg, &peer(2)), FilteringResult::NewMessage);
}

#[test]
fn incoming_repeat_renews_the_entry() {
    let mut filter = RoutingMessageFilter::new();
    let msg = routed(1);
    assert_eq!(filter.filter_incoming_at(&msg, 0), FilteringResult::NewMessage);
    assert_eq!(filter.filter_incoming_at(&msg, 1_000_000), FilteringResult::KnownMessage);
    // 300 s after the latest occurrence, 1300 s after the first.
    assert_eq!(filter.filter_incoming_at(&msg, 1_300_000), FilteringResult::KnownMessage);
    assert_eq!(filter.filter_incoming_at(&msg, 1_300_000 + INCOMING_TTL), FilteringResult::KnownMessage);
    assert_eq!(filter.filter_incoming_at(&msg, 1_300_000 + 2 * INCOMING_TTL + 1), FilteringResult::NewMessage);
}

#[test]
fn incoming_knows_a_message_that_was_made_anew_from_the_same_parts() {
    let mut filter = RoutingMessageFilter::new();
    let sent = routed(3);
    let received = MessageWithBytes::new(*sent.message_dst(), sent.full_bytes().clone(), *sent.full_crypto_hash());
    assert_eq!(filter.filter_incoming_at(&sent, 0), FilteringResult::NewMessage);
    assert_eq!(filter.filter_incoming_at(&sent, INCOMING_TTL), FilteringResult::KnownMessage);
    assert_eq!(filter.filter_incoming_at(&received, INCOMING_TTL + 500_000), FilteringResult::KnownMessage);
}

#[test]
fn outgoing_tells_peers_apart_by_name_and_key() {
    let mut filter = RoutingMessageFilter::new();
    let msg = routed(1);
    let name = XorName { hi: 7, lo: 7 };
    let one = PublicId { name, public_key: PublicKey { hi: 0, lo: 1 } };
    let other = PublicId { name, public_key: PublicKey { hi: 0, lo: 2 } };
    let third = PublicId { name, public_key: PublicKey { hi: 1, lo: 1 } };
    assert_eq!(filter.filter_outgoing_at(&msg, &one, 0), FilteringResult::NewMessage);
    assert_eq!(filter.filter_outgoing_at(&msg, &other, 0), FilteringResult::NewMessage);
    assert_eq!(filter.filter_outgoing_at(&msg, &third, 0), FilteringResult::NewMessage);
    assert_eq!(filter.filter_outgoing_at(&msg, &one, 1), FilteringResult::KnownMessage);
    assert_eq!(filter.filter_outgoing_at(&msg, &other, 1), FilteringResult::KnownMessage);
    // After the time to live each of them gets the message again.
    let later = 1 + OUTGOING_TTL + 1;
    assert_eq!(filter.filter_outgoing_at(&msg, &one, later), FilteringResult::NewMessage);
    assert_eq!(filter.filter_outgoing_at(&msg, &other, later), FilteringResult::NewMessage);
    assert_eq!(filter.filter_outgoing_at(&msg, &third, later), FilteringResult::NewMessage);
}

#[test]
fn fan_out_after_an_incoming_message_reaches_every_peer() {
    let mut filter = RoutingMessageFilter::new();
    let msg = routed(1);
    assert_eq!(filter.filter_incoming_at(&msg, 0), FilteringResult::NewMessage);
    for n in 1..=3 {
        assert_eq!(filter.filter_outgoing_at(&msg, &peer(n), 0), FilteringResult::NewMessage);
    }
    // After the time to live of the incoming filter the message comes in and goes out again.
    let later = INCOMING_TTL + 1;
    assert_eq!(filter.filter_incoming_at(&msg, later), FilteringResult::NewMessage);
    for n in 1..=3 {
        assert_eq!(filter.filter_outgoing_at(&msg, &peer(n), later), FilteringResult::NewMessage);
    }
}
