use routing::crypto::Digest256;
use routing::message_filter::MessageFilter;

const TTL: u64 = 1_000;

fn key(n: u128) -> Digest256 {
    Digest256 { hi: n, lo: !n }
}

#[test]
fn insert_counts_within_the_time_to_live() {
    let mut filter = MessageFilter::with_expiry_duration(TTL);
    assert_eq!(filter.time_to_live(), TTL);
    assert_eq!(filter.count(&key(1), 0), 0);
    assert!(!filter.contains(&key(1), 0));
    assert_eq!(filter.insert(&key(1), 10), 1);
    assert_eq!(filter.insert(&key(1), 20), 2);
    assert_eq!(filter.insert(&key(2), 30), 1);
    assert_eq!(filter.insert(&key(1), 40), 3);
    assert_eq!(filter.count(&key(1), 40), 3);
    assert_eq!(filter.count(&key(2), 40), 1);
    assert_eq!(filter.count(&key(3), 40), 0);
    assert!(filter.contains(&key(2), 40));
}

#[test]
fn an_entry_lives_from_its_latest_insertion() {
    let mut filter = MessageFilter::with_expiry_duration(TTL);
    assert_eq!(filter.insert(&key(1), 100), 1);
    // At exactly the time to live the entry is still there; one millisecond later it is gone.
    assert!(filter.contains(&key(1), 1_100));
    assert!(!filter.contains(&key(1), 1_101));
    // Entered again shortly before the end of its life: that renews it.
    assert_eq!(filter.insert(&key(1), 1_000), 2);
    assert!(filter.contains(&key(1), 1_101));
    assert!(filter.contains(&key(1), 2_000));
    assert_eq!(filter.count(&key(1), 2_000), 2);
    assert!(!filter.contains(&key(1), 2_001));
    assert_eq!(filter.count(&key(1), 2_001), 0);
    // Long after its first insertion the entry is still counted on.
    assert_eq!(filter.insert(&key(1), 1_900), 3);
    assert_eq!(filter.insert(&key(1), 2_900), 4);
    assert_eq!(filter.insert(&key(1), 3_901), 1);
}

#[test]
fn the_insertion_of_another_key_renews_nothing() {
    let mut filter = MessageFilter::with_expiry_duration(TTL);
    assert_eq!(filter.insert(&key(1), 0), 1);
    assert_eq!(filter.insert(&key(2), 900), 1);
    assert!(filter.contains(&key(1), 1_000));
    assert!(!filter.contains(&key(1), 1_001));
    assert!(filter.contains(&key(2), 1_900));
}

#[test]
fn insert_after_expiry_reports_the_first_occurrence_again() {
    let mut filter = MessageFilter::with_expiry_duration(TTL);
    assert_eq!(filter.insert(&key(7), 5), 1);
    assert_eq!(filter.insert(&key(7), 5 + TTL + 1), 1);
    assert_eq!(filter.insert(&key(7), 5 + TTL + 2), 2);
    assert_eq!(filter.insert(&key(7), 5 + 2 * TTL + 2), 3);
    assert_eq!(filter.insert(&key(7), 5 + 3 * TTL + 3), 1);
}

#[test]
fn the_clock_of_the_filter_never_goes_back() {
    let mut filter = MessageFilter::with_expiry_duration(TTL);
    assert_eq!(filter.insert(&key(1), 5_000), 1);
    // A reading older than the latest counts as the latest.
    assert_eq!(filter.insert(&key(2), 10), 1);
    assert!(filter.contains(&key(2), 6_000));
    assert!(!filter.contains(&key(2), 6_001));
    assert!(filter.contains(&key(1), 0));
}

#[test]
fn insertion_forgets_what_has_expired() {
    let mut filter = MessageFilter::with_expiry_duration(TTL);
    for n in 0..50u128 {
        assert_eq!(filter.insert(&key(n), n as u64), 1);
    }
    assert_eq!(filter.insert(&key(100), 1_020), 1);
    for n in 0..50u128 {
        assert_eq!(filter.contains(&key(n), 1_020), n >= 20);
    }
}

#[test]
fn clear_forgets_everything() {
    let mut filter = MessageFilter::with_expiry_duration(TTL);
    assert_eq!(filter.insert(&key(1), 1), 1);
    assert_eq!(filter.insert(&key(2), 2), 1);
    filter.clear();
    assert!(!filter.contains(&key(1), 2));
    assert!(!filter.contains(&key(2), 2));
    assert_eq!(filter.insert(&key(1), 3), 1);
}
