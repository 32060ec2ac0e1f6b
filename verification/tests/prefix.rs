use routing::prefix::Prefix;
use routing::xor_name::XorName;

/// The prefix written as a string of `0` and `1`.
fn prefix(bits: &str) -> Prefix {
    let mut p = Prefix::default();
    for c in bits.chars() {
        p = p.pushed(c == '1');
    }
    p
}

/// A name that starts with the given bits and goes on with zeros.
fn name(bits: &str) -> XorName {
    prefix(bits).name()
}

#[test]
fn new_keeps_only_the_leading_bits() {
    let ones = XorName { hi: u128::MAX, lo: u128::MAX };
    let p = Prefix::new(3, ones);
    assert_eq!(p.bit_count(), 3);
    assert_eq!(p.name(), XorName { hi: 0b111 << 125, lo: 0 });
    assert_eq!(p, prefix("111"));
    assert_eq!(Prefix::new(0, ones), Prefix::default());
    assert_eq!(Prefix::new(256, ones).bit_count(), 256);
    assert_eq!(Prefix::new(300, ones).bit_count(), 256);
    assert_eq!(Prefix::new(300, ones).name(), ones);
}

#[test]
fn default_is_empty_and_matches_every_name() {
    let p = Prefix::default();
    assert!(p.is_empty());
    assert_eq!(p.bit_count(), 0);
    assert!(p.matches(&XorName { hi: 0, lo: 0 }));
    assert!(p.matches(&XorName { hi: u128::MAX, lo: u128::MAX }));
    assert!(!prefix("0").is_empty());
}

#[test]
fn matches_is_exact() {
    let p = prefix("101");
    assert!(p.matches(&name("101")));
    assert!(p.matches(&name("1011")));
    assert!(p.matches(&name("10100001")));
    assert!(!p.matches(&name("100")));
    assert!(!p.matches(&name("001")));
    assert!(!p.matches(&name("111")));
    assert!(!p.matches(&name("10")));
}

#[test]
fn is_compatible_is_reflexive_and_symmetric() {
    let pairs = [("", "1"), ("10", "101"), ("10", "11"), ("0", "1"), ("1011", "10"), ("0101", "0101")];
    for (a, b) in pairs {
        let (p, q) = (prefix(a), prefix(b));
        assert!(p.is_compatible(&p));
        assert!(q.is_compatible(&q));
        assert_eq!(p.is_compatible(&q), q.is_compatible(&p));
    }
    assert!(prefix("").is_compatible(&prefix("1")));
    assert!(prefix("10").is_compatible(&prefix("101")));
    assert!(!prefix("10").is_compatible(&prefix("11")));
    assert!(!prefix("0").is_compatible(&prefix("1")));
}

#[test]
fn is_neighbour_needs_exactly_one_differing_bit() {
    assert!(prefix("0").is_neighbour(&prefix("1")));
    assert!(prefix("00").is_neighbour(&prefix("01")));
    assert!(prefix("00").is_neighbour(&prefix("10")));
    assert!(prefix("0").is_neighbour(&prefix("10")));
    assert!(prefix("10").is_neighbour(&prefix("0")));
    assert!(prefix("000").is_neighbour(&prefix("01")));
    assert!(!prefix("00").is_neighbour(&prefix("11")));
    assert!(!prefix("0").is_neighbour(&prefix("0")));
    assert!(!prefix("0").is_neighbour(&prefix("01")));
    assert!(!prefix("").is_neighbour(&prefix("1")));
    assert!(!prefix("").is_neighbour(&prefix("")));
}

#[test]
fn pushed_halves_partition_the_prefix() {
    let p = prefix("10");
    let (zero, one) = (p.pushed(false), p.pushed(true));
    assert_eq!(zero, prefix("100"));
    assert_eq!(one, prefix("101"));
    assert_eq!(zero.bit_count(), 3);
    for n in [name("100"), name("1001"), name("101"), name("10111"), name("11"), name("0")] {
        assert_eq!(p.matches(&n), zero.matches(&n) || one.matches(&n));
        assert!(!(zero.matches(&n) && one.matches(&n)));
    }
    assert_eq!(zero.popped(), p);
    assert_eq!(one.popped(), p);
    assert_eq!(Prefix::default().popped(), Prefix::default());
}

#[test]
fn pushed_stops_at_the_width_of_a_name() {
    let full = Prefix::new(256, XorName { hi: 7, lo: 9 });
    assert_eq!(full.pushed(true), full);
    assert_eq!(full.pushed(false), full);
}

#[test]
fn sibling_flips_the_last_bit() {
    assert_eq!(prefix("100").sibling(), prefix("101"));
    assert_eq!(prefix("1").sibling(), prefix("0"));
    assert_eq!(prefix("").sibling(), prefix(""));
    let p = prefix("0110");
    assert_eq!(p.sibling(), p.with_flipped_bit(p.bit_count() - 1));
    assert_eq!(p.sibling().sibling(), p);
}

#[test]
fn with_flipped_bit_changes_bits_of_the_prefix_only() {
    let p = prefix("0110");
    assert_eq!(p.with_flipped_bit(0), prefix("1110"));
    assert_eq!(p.with_flipped_bit(2), prefix("0100"));
    assert_eq!(p.with_flipped_bit(4), p);
    assert_eq!(p.with_flipped_bit(1000), p);
}

#[test]
fn range_inclusive_gives_the_smallest_and_the_largest_name() {
    let p = prefix("101");
    let (lower, upper) = p.range_inclusive();
    assert_eq!(lower, XorName { hi: 0b101 << 125, lo: 0 });
    assert_eq!(upper, XorName { hi: (0b101 << 125) | (u128::MAX >> 3), lo: u128::MAX });
    assert_eq!(upper, p.upper_bound());
    assert!(p.matches(&lower));
    assert!(p.matches(&upper));
    let (lowest, highest) = Prefix::default().range_inclusive();
    assert_eq!(lowest, XorName { hi: 0, lo: 0 });
    assert_eq!(highest, XorName { hi: u128::MAX, lo: u128::MAX });
}

#[test]
fn is_covered_by_finds_gaps() {
    let whole = Prefix::default();
    assert!(whole.is_covered_by(&vec![prefix("0"), prefix("1")]));
    assert!(whole.is_covered_by(&vec![prefix("1"), prefix("00"), prefix("01")]));
    assert!(whole.is_covered_by(&vec![prefix("")]));
    assert!(!whole.is_covered_by(&vec![prefix("0")]));
    assert!(!whole.is_covered_by(&vec![prefix("1"), prefix("00")]));
    assert!(!whole.is_covered_by(&vec![]));
    assert!(!whole.is_covered_by(&vec![prefix("1"), prefix("00"), prefix("010"), prefix("0111")]));
    assert!(whole.is_covered_by(&vec![prefix("1"), prefix("00"), prefix("010"), prefix("0111"), prefix("0110")]));

    let p = prefix("10");
    assert!(p.is_covered_by(&vec![prefix("1")]));
    assert!(p.is_covered_by(&vec![prefix("10")]));
    assert!(p.is_covered_by(&vec![prefix("100"), prefix("101")]));
    assert!(p.is_covered_by(&vec![prefix("0"), prefix("100"), prefix("1010"), prefix("1011")]));
    assert!(!p.is_covered_by(&vec![prefix("100"), prefix("11")]));
    assert!(!p.is_covered_by(&vec![prefix("0"), prefix("11")]));

    let full = Prefix::new(256, XorName { hi: 1, lo: 1 });
    assert!(full.is_covered_by(&vec![full]));
    assert!(!full.is_covered_by(&vec![full.sibling()]));
}

#[test]
fn from_canonical_takes_only_the_smallest_name_of_a_prefix() {
    let p = prefix("101");
    assert_eq!(Prefix::from_canonical(3, p.name()), Some(p));
    assert_eq!(Prefix::from_canonical(0, XorName { hi: 0, lo: 0 }), Some(Prefix::default()));
    assert_eq!(Prefix::from_canonical(256, XorName { hi: 5, lo: 7 }), Some(Prefix::new(256, XorName { hi: 5, lo: 7 })));
    // The name goes on after the bits of the prefix.
    assert_eq!(Prefix::from_canonical(2, p.name()), None);
    assert_eq!(Prefix::from_canonical(0, XorName { hi: 0, lo: 1 }), None);
    // A name has no more than 256 bits.
    assert_eq!(Prefix::from_canonical(257, XorName { hi: 0, lo: 0 }), None);
}

#[test]
fn same_bits_compares_bit_strings() {
    assert!(prefix("101").same_bits(&prefix("101")));
    assert!(!prefix("101").same_bits(&prefix("10")));
    assert!(!prefix("101").same_bits(&prefix("100")));
    assert!(prefix("").same_bits(&Prefix::default()));
}
