use routing::partition::{sanity_check, PrefixLengthsError};

#[test]
fn sanity_check_valid() {
    assert_eq!(sanity_check(&[1, 1]), Ok(()));
    assert_eq!(sanity_check(&[1, 2, 3, 4, 5, 6, 7, 8, 8]), Ok(()));
    assert_eq!(sanity_check(&[8; 256]), Ok(()));
}

#[test]
fn sanity_check_rejects_a_single_length() {
    assert_eq!(sanity_check(&[0]), Err(PrefixLengthsError::TooFew));
    assert_eq!(sanity_check(&[]), Err(PrefixLengthsError::TooFew));
}

#[test]
fn sanity_check_rejects_overlapping_sections() {
    assert_eq!(sanity_check(&[1, 2, 2, 2]), Err(PrefixLengthsError::Overlap));
}

#[test]
fn sanity_check_rejects_missing_sections() {
    assert_eq!(sanity_check(&[1, 2]), Err(PrefixLengthsError::Gaps));
}

#[test]
fn sanity_check_rejects_lengths_over_eight() {
    assert_eq!(sanity_check(&[1, 2, 3, 4, 5, 6, 7, 8, 9, 9]), Err(PrefixLengthsError::TooLong));
    // A length over 8 is reported even where the others already overlap.
    assert_eq!(sanity_check(&[0, 0, 9]), Err(PrefixLengthsError::TooLong));
}
