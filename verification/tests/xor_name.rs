use routing::xor_name::{XorName, XOR_NAME_BITS};

fn name_with_top_byte(byte: u8) -> XorName {
    XorName { hi: (byte as u128) << 120, lo: 0 }
}

#[test]
fn bits_are_counted_from_the_most_significant() {
    let name = name_with_top_byte(0b1010_0000);
    assert!(name.bit(0));
    assert!(!name.bit(1));
    assert!(name.bit(2));
    assert!(!name.bit(3));
    assert!(!name.bit(127));

    let low = XorName { hi: 0, lo: 1 };
    assert!(low.bit(255));
    assert!(!low.bit(254));
    assert!(!low.bit(128));

    let boundary = XorName { hi: 1, lo: 1 << 127 };
    assert!(boundary.bit(127));
    assert!(boundary.bit(128));
    assert!(!boundary.bit(126));
    assert!(!boundary.bit(129));
    assert_eq!(XOR_NAME_BITS, 256);
}

#[test]
fn with_bit_changes_one_bit_only() {
    let zero = XorName::zero();
    assert_eq!(zero, XorName { hi: 0, lo: 0 });
    assert_eq!(zero.with_bit(0, true), XorName { hi: 1 << 127, lo: 0 });
    assert_eq!(zero.with_bit(127, true), XorName { hi: 1, lo: 0 });
    assert_eq!(zero.with_bit(128, true), XorName { hi: 0, lo: 1 << 127 });
    assert_eq!(zero.with_bit(255, true), XorName { hi: 0, lo: 1 });
    let ones = XorName { hi: u128::MAX, lo: u128::MAX };
    assert_eq!(ones.with_bit(3, false), XorName { hi: u128::MAX ^ (1 << 124), lo: u128::MAX });
    assert_eq!(ones.with_bit(3, true), ones);
    assert_eq!(zero.with_bit(9, false), zero);
}

#[test]
fn with_flipped_bit_is_its_own_inverse() {
    let name = XorName { hi: 0x1234, lo: 0x5678 };
    for i in [0usize, 1, 64, 127, 128, 200, 255] {
        let flipped = name.with_flipped_bit(i);
        assert_ne!(flipped, name);
        assert_eq!(flipped.bit(i), !name.bit(i));
        assert_eq!(flipped.with_flipped_bit(i), name);
    }
}

#[test]
fn set_remaining_keeps_the_leading_bits() {
    let ones = XorName { hi: u128::MAX, lo: u128::MAX };
    assert_eq!(ones.set_remaining(0, false), XorName::zero());
    assert_eq!(ones.set_remaining(1, false), XorName { hi: 1 << 127, lo: 0 });
    assert_eq!(ones.set_remaining(128, false), XorName { hi: u128::MAX, lo: 0 });
    assert_eq!(ones.set_remaining(129, false), XorName { hi: u128::MAX, lo: 1 << 127 });
    assert_eq!(ones.set_remaining(256, false), ones);
    let zero = XorName::zero();
    assert_eq!(zero.set_remaining(0, true), ones);
    assert_eq!(zero.set_remaining(4, true), XorName { hi: u128::MAX >> 4, lo: u128::MAX });
    assert_eq!(zero.set_remaining(130, true), XorName { hi: 0, lo: u128::MAX >> 2 });
    assert_eq!(zero.set_remaining(256, true), zero);
}

#[test]
fn common_prefix_counts_the_leading_bits_in_agreement() {
    let a = XorName { hi: 0, lo: 0 };
    assert_eq!(a.common_prefix(&a), 256);
    assert_eq!(a.common_prefix(&XorName { hi: 1 << 127, lo: 0 }), 0);
    assert_eq!(a.common_prefix(&XorName { hi: 1 << 120, lo: 0 }), 7);
    assert_eq!(a.common_prefix(&XorName { hi: 0, lo: 1 << 127 }), 128);
    assert_eq!(a.common_prefix(&XorName { hi: 0, lo: 1 }), 255);
}

#[test]
fn closer_compares_xor_distances() {
    let target = XorName { hi: 0b1000, lo: 0 };
    let near = XorName { hi: 0b1001, lo: 0 };
    let far = XorName { hi: 0b0000, lo: 0 };
    assert!(target.closer(&near, &far));
    assert!(!target.closer(&far, &near));
    assert!(!target.closer(&near, &near));
    assert!(target.closer(&target, &near));
    // The low word decides where the high words are equally far.
    let low_near = XorName { hi: 0b1000, lo: 1 };
    let low_far = XorName { hi: 0b1000, lo: 2 };
    assert!(target.closer(&low_near, &low_far));
    assert!(!target.closer(&low_far, &low_near));
}

#[test]
fn a_name_has_no_bits_beyond_its_width() {
    let ones = XorName { hi: u128::MAX, lo: u128::MAX };
    assert!(ones.bit(255));
    assert!(!ones.bit(256));
    assert!(!ones.bit(usize::MAX));
    assert_eq!(ones.with_bit(256, false), ones);
    assert_eq!(ones.with_flipped_bit(300), ones);
    assert_eq!(ones.set_remaining(257, false), ones);
    assert_eq!(ones.set_remaining(usize::MAX, false), ones);
}

#[test]
fn less_than_reads_names_as_numbers() {
    let small = XorName { hi: 1, lo: u128::MAX };
    let large = XorName { hi: 2, lo: 0 };
    assert!(small.less_than(&large));
    assert!(!large.less_than(&small));
    assert!(!small.less_than(&small));
    assert!(XorName { hi: 2, lo: 0 }.less_than(&XorName { hi: 2, lo: 1 }));
}
