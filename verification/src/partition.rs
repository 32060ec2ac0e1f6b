//! Partitions of the address space by prefix length.
//!
//! A section with a prefix of `n` bits holds the fraction `1 / 2^n` of all
//! names. Sections whose prefixes have at most 8 bits can be weighed in
//! units of `1 / 256`: a prefix of `n` bits weighs `2^(8 - n)`, and lengths
//! that partition the address space weigh 256 together.

use vstd::prelude::*;

verus! {

/// Why a list of prefix lengths describes no partition of the address space.
#[derive(Clone, Copy, Debug, PartialEq, Eq, Structural)]
pub enum PrefixLengthsError {
    /// There are fewer than two lengths, so nothing is split.
    TooFew,
    /// A length is more than 8.
    TooLong,
    /// The lengths would not cover the entire address space.
    Gaps,
    /// The lengths would require overlapping sections.
    Overlap,
}

/// The weight of a prefix of `bit_count` bits, for `bit_count <= 8`: `2^(8 - bit_count)`.
pub open spec fn weight(bit_count: usize) -> nat {
    if bit_count == 0 {
        256
    } else if bit_count == 1 {
        128
    } else if bit_count == 2 {
        64
    } else if bit_count == 3 {
        32
    } else if bit_count == 4 {
        16
    } else if bit_count == 5 {
        8
    } else if bit_count == 6 {
        4
    } else if bit_count == 7 {
        2
    } else {
        1
    }
}

/// The weight of prefixes of the given lengths together.
pub open spec fn total_weight(lengths: Seq<usize>) -> nat
    decreases lengths.len(),
{
    if lengths.len() == 0 {
        0
    } else {
        total_weight(lengths.drop_last()) + weight(lengths.last())
    }
}

/// Some length is more than 8.
pub open spec fn has_long(lengths: Seq<usize>) -> bool {
    exists|i: int| 0 <= i < lengths.len() && #[trigger] lengths[i] > 8
}

/// What `sanity_check` returns for the given lengths.
pub open spec fn sanity_check_spec(lengths: Seq<usize>) -> Result<(), PrefixLengthsError> {
    if lengths.len() < 2 {
        Err(PrefixLengthsError::TooFew)
    } else if has_long(lengths) {
        Err(PrefixLengthsError::TooLong)
    } else if total_weight(lengths) < 256 {
        Err(PrefixLengthsError::Gaps)
    } else if total_weight(lengths) > 256 {
        Err(PrefixLengthsError::Overlap)
    } else {
        Ok(())
    }
}

/// Returns the weight of a prefix of `bit_count` bits.
fn weight_of(bit_count: usize) -> (w: u128)
    requires
        bit_count <= 8,
    ensures
        w == weight(bit_count),
{
    if bit_count == 0 {
        256
    } else if bit_count == 1 {
        128
    } else if bit_count == 2 {
        64
    } else if bit_count == 3 {
        32
    } else if bit_count == 4 {
        16
    } else if bit_count == 5 {
        8
    } else if bit_count == 6 {
        4
    } else if bit_count == 7 {
        2
    } else {
        1
    }
}

/// Checks that sections with prefixes of the given lengths can partition
/// the address space: there are at least two lengths, none is more than 8,
/// and together they weigh exactly 256.
pub fn sanity_check(prefix_lengths: &[usize]) -> (r: Result<(), PrefixLengthsError>)
    ensures
        r == sanity_check_spec(prefix_lengths@),
{
    if prefix_lengths.len() < 2 {
        return Err(PrefixLengthsError::TooFew);
    }
    let mut i: usize = 0;
    while i < prefix_lengths.len()
        invariant
            i <= prefix_lengths@.len(),
            prefix_lengths@.len() >= 2,
            forall|j: int| 0 <= j < i ==> #[trigger] prefix_lengths@[j] <= 8,
        decreases prefix_lengths@.len() - i,
    {
        if prefix_lengths[i] > 8 {
            return Err(PrefixLengthsError::TooLong);
        }
        i = i + 1;
    }
    let mut sum: u128 = 0;
    let mut k: usize = 0;
    while k < prefix_lengths.len()
        invariant
            k <= prefix_lengths@.len(),
            forall|j: int| 0 <= j < prefix_lengths@.len() ==> #[trigger] prefix_lengths@[j] <= 8,
            sum == total_weight(prefix_lengths@.take(k as int)),
            sum <= 256 * k,
        decreases prefix_lengths@.len() - k,
    {
        proof {
            let next = prefix_lengths@.take(k + 1);
            assert(next.drop_last() =~= prefix_lengths@.take(k as int));
        }
        sum = sum + weight_of(prefix_lengths[k]);
        k = k + 1;
    }
    assert(prefix_lengths@.take(prefix_lengths@.len() as int) =~= prefix_lengths@);
    if sum < 256 {
        Err(PrefixLengthsError::Gaps)
    } else if sum > 256 {
        Err(PrefixLengthsError::Overlap)
    } else {
        Ok(())
    }
}

} // verus!
