//! 256-bit names of the overlay's address space.
//!
//! A name is a string of 256 bits, numbered from the most significant bit
//! (index 0) to the least significant one (index 255). It is stored as two
//! 128-bit words.

use vstd::prelude::*;

verus! {

/// Width of a name in bits.
pub const XOR_NAME_BITS: usize = 256;

/// A 256-bit name. `hi` holds bits 0 to 127, `lo` bits 128 to 255.
#[derive(Clone, Copy, Debug, PartialEq, Eq, Structural, Hash)]
pub struct XorName {
    pub hi: u128,
    pub lo: u128,
}

/// Bit `i` of a word, counted from the most significant bit.
pub open spec fn word_bit(w: u128, i: int) -> bool {
    (w >> ((127 - i) as u128)) & 1 == 1
}

proof fn lemma_set_bit(w: u128, s: u128, t: u128)
    by (bit_vector)
    requires
        s < 128,
        t < 128,
    ensures
        (((w | (1u128 << s)) >> t) & 1 == 1) == (t == s || (w >> t) & 1 == 1),
        (((w & !(1u128 << s)) >> t) & 1 == 1) == (t != s && (w >> t) & 1 == 1),
{
}

proof fn lemma_fill_low(w: u128, k: u128, t: u128)
    by (bit_vector)
    requires
        0 < k < 128,
        t < 128,
    ensures
        (((w | (u128::MAX >> k)) >> t) & 1 == 1) == (t < 128 - k || (w >> t) & 1 == 1),
        (((w & !(u128::MAX >> k)) >> t) & 1 == 1) == (t >= 128 - k && (w >> t) & 1 == 1),
{
}

proof fn lemma_const_bits(t: u128)
    by (bit_vector)
    requires
        t < 128,
    ensures
        (u128::MAX >> t) & 1 == 1,
        (0u128 >> t) & 1 == 0,
{
}

/// The word `w` with bit `i` replaced by `bit`.
fn word_with_bit(w: u128, i: usize, bit: bool) -> (r: u128)
    requires
        i < 128,
    ensures
        forall|j: int| 0 <= j < 128 ==> #[trigger] word_bit(r, j) == (if j == i { bit } else { word_bit(w, j) }),
{
    let s: u128 = (127 - i) as u128;
    let r = if bit { w | (1u128 << s) } else { w & !(1u128 << s) };
    proof {
        assert forall|j: int| 0 <= j < 128 implies #[trigger] word_bit(r, j) == (if j == i { bit } else { word_bit(w, j) }) by {
            lemma_set_bit(w, s, (127 - j) as u128);
        }
    }
    r
}

/// The word `w` with its first `keep` bits kept and the others replaced by `val`.
fn word_fill_from(w: u128, keep: usize, val: bool) -> (r: u128)
    requires
        keep <= 128,
    ensures
        forall|j: int| 0 <= j < 128 ==> #[trigger] word_bit(r, j) == (if j < keep { word_bit(w, j) } else { val }),
{
    if keep == 128 {
        w
    } else if keep == 0 {
        let r: u128 = if val { u128::MAX } else { 0 };
        proof {
            assert forall|j: int| 0 <= j < 128 implies #[trigger] word_bit(r, j) == val by {
                lemma_const_bits((127 - j) as u128);
            }
        }
        r
    } else {
        let k: u128 = keep as u128;
        let mask: u128 = u128::MAX >> k;
        let r = if val { w | mask } else { w & !mask };
        proof {
            assert forall|j: int| 0 <= j < 128 implies #[trigger] word_bit(r, j) == (if j < keep { word_bit(w, j) } else { val }) by {
                lemma_fill_low(w, k, (127 - j) as u128);
            }
        }
        r
    }
}

impl XorName {
    /// Bit `i` of the name. A name has the bits 0 to 255; any other bit is
    /// taken to be zero.
    pub open spec fn bit_at(self, i: int) -> bool {
        if 0 <= i < 128 {
            word_bit(self.hi, i)
        } else if 128 <= i < 256 {
            word_bit(self.lo, i - 128)
        } else {
            false
        }
    }

    /// The name all of whose bits are zero.
    pub fn zero() -> (r: XorName)
        ensures
            r == (XorName { hi: 0, lo: 0 }),
            forall|j: int| 0 <= j < 256 ==> !#[trigger] r.bit_at(j),
    {
        let r = XorName { hi: 0, lo: 0 };
        proof {
            assert forall|j: int| 0 <= j < 256 implies !#[trigger] r.bit_at(j) by {
                if j < 128 {
                    lemma_const_bits((127 - j) as u128);
                } else {
                    lemma_const_bits((255 - j) as u128);
                }
            }
        }
        r
    }

    /// Returns bit `i` of the name, and `false` where the name has no bit `i`.
    pub fn bit(&self, i: usize) -> (b: bool)
        ensures
            b == self.bit_at(i as int),
    {
        if i < 128 {
            let s: u128 = (127 - i) as u128;
            (self.hi >> s) & 1 == 1
        } else if i < 256 {
            let s: u128 = (255 - i) as u128;
            (self.lo >> s) & 1 == 1
        } else {
            false
        }
    }

    /// Returns the name with bit `i` replaced by `bit`. Where the name has
    /// no bit `i` it is returned unchanged.
    pub fn with_bit(self, i: usize, bit: bool) -> (r: XorName)
        ensures
            forall|j: int| 0 <= j < 256 ==> #[trigger] r.bit_at(j) == (if j == i { bit } else { self.bit_at(j) }),
            i >= 256 ==> r == self,
    {
        if i < 128 {
            XorName { hi: word_with_bit(self.hi, i, bit), lo: self.lo }
        } else if i < 256 {
            XorName { hi: self.hi, lo: word_with_bit(self.lo, i - 128, bit) }
        } else {
            self
        }
    }

    /// Returns the name with bit `i` inverted. Where the name has no bit `i`
    /// it is returned unchanged.
    pub fn with_flipped_bit(self, i: usize) -> (r: XorName)
        ensures
            forall|j: int| 0 <= j < 256 ==> #[trigger] r.bit_at(j) == (if j == i { !self.bit_at(j) } else { self.bit_at(j) }),
            i >= 256 ==> r == self,
    {
        if i >= 256 {
            return self;
        }
        let b = self.bit(i);
        self.with_bit(i, !b)
    }

    /// Returns the name with its first `n` bits kept and all later bits set
    /// to `val`. Where `n` is 256 or more, that is the name itself.
    pub fn set_remaining(self, n: usize, val: bool) -> (r: XorName)
        ensures
            forall|j: int| 0 <= j < 256 ==> #[trigger] r.bit_at(j) == (if j < n { self.bit_at(j) } else { val }),
            n >= 256 ==> r == self,
    {
        if n <= 128 {
            XorName { hi: word_fill_from(self.hi, n, val), lo: word_fill_from(self.lo, 0, val) }
        } else if n < 256 {
            XorName { hi: self.hi, lo: word_fill_from(self.lo, n - 128, val) }
        } else {
            self
        }
    }
}

proof fn lemma_xor_cancels(x: u128, a: u128, b: u128)
    by (bit_vector)
    requires
        x ^ a == x ^ b,
    ensures
        a == b,
{
}

proof fn lemma_shift_step(a: u128, t: u128)
    by (bit_vector)
    requires
        t < 127,
    ensures
        a >> t == ((a >> ((t + 1) as u128)) << 1) | ((a >> t) & 1),
        (a >> 127u128) == (a >> 127u128) & 1,
        (a >> t) & 1 == 0 || (a >> t) & 1 == 1,
        (a >> 127u128) & 1 == 0 || (a >> 127u128) & 1 == 1,
        a >> 0u128 == a,
{
}

/// Two words that agree in every bit agree in what is left of them after a
/// shift to the right.
proof fn lemma_shifted_by_bits(a: u128, b: u128, t: u128)
    requires
        t < 128,
        forall|s: u128| s < 128 ==> ((a >> s) & 1 == 1) == ((b >> s) & 1 == 1),
    ensures
        a >> t == b >> t,
    decreases 127 - t,
{
    if t < 127 {
        lemma_shifted_by_bits(a, b, (t + 1) as u128);
        lemma_shift_step(a, t);
        lemma_shift_step(b, t);
    } else {
        lemma_shift_step(a, 0);
        lemma_shift_step(b, 0);
    }
}

proof fn lemma_word_by_bits(a: u128, b: u128)
    requires
        forall|t: u128| t < 128 ==> ((a >> t) & 1 == 1) == ((b >> t) & 1 == 1),
    ensures
        a == b,
{
    lemma_shifted_by_bits(a, b, 0);
    lemma_shift_step(a, 0);
    lemma_shift_step(b, 0);
}

/// A name is determined by its bits: two names that agree in every bit are
/// the same name.
pub proof fn lemma_bits_determine_name(a: XorName, b: XorName)
    requires
        forall|j: int| 0 <= j < 256 ==> #[trigger] a.bit_at(j) == b.bit_at(j),
    ensures
        a == b,
{
    assert forall|t: u128| t < 128 implies ((a.hi >> t) & 1 == 1) == ((b.hi >> t) & 1 == 1) by {
        assert(a.bit_at(127 - t) == b.bit_at(127 - t));
    }
    assert forall|t: u128| t < 128 implies ((a.lo >> t) & 1 == 1) == ((b.lo >> t) & 1 == 1) by {
        assert(a.bit_at(255 - t) == b.bit_at(255 - t));
    }
    lemma_word_by_bits(a.hi, b.hi);
    lemma_word_by_bits(a.lo, b.lo);
}

impl XorName {
    /// The two names agree in every bit before `n`.
    pub open spec fn agrees_upto(self, other: XorName, n: int) -> bool {
        forall|j: int| 0 <= j < n ==> #[trigger] self.bit_at(j) == other.bit_at(j)
    }

    /// The distance between two names: their bitwise exclusive or, read as a number.
    pub open spec fn distance(self, other: XorName) -> nat {
        ((self.hi ^ other.hi) as nat) * 0x1_0000_0000_0000_0000_0000_0000_0000_0000nat + ((self.lo ^ other.lo) as nat)
    }

    /// Names at the same distance from a name are the same name.
    pub proof fn lemma_distance_determines_name(self, a: XorName, b: XorName)
        requires
            self.distance(a) == self.distance(b),
        ensures
            a == b,
    {
        let (ah, bh, al, bl) = (self.hi ^ a.hi, self.hi ^ b.hi, self.lo ^ a.lo, self.lo ^ b.lo);
        lemma_xor_cancels(self.hi, a.hi, b.hi);
        lemma_xor_cancels(self.lo, a.lo, b.lo);
    }

    /// Returns the number of leading bits in which the two names agree.
    pub fn common_prefix(&self, other: &XorName) -> (n: usize)
        ensures
            n <= 256,
            self.agrees_upto(*other, n as int),
            n < 256 ==> self.bit_at(n as int) != other.bit_at(n as int),
    {
        let mut i: usize = 0;
        while i < 256
            invariant
                i <= 256,
                self.agrees_upto(*other, i as int),
            decreases 256 - i,
        {
            if self.bit(i) != other.bit(i) {
                return i;
            }
            i = i + 1;
        }
        i
    }

    /// This name, read as a number, is smaller than the other.
    pub open spec fn lt_spec(self, other: XorName) -> bool {
        self.hi < other.hi || (self.hi == other.hi && self.lo < other.lo)
    }

    /// Returns whether this name, read as a number, is smaller than the other.
    pub fn less_than(&self, other: &XorName) -> (b: bool)
        ensures
            b == self.lt_spec(*other),
    {
        self.hi < other.hi || (self.hi == other.hi && self.lo < other.lo)
    }

    /// Returns whether `lhs` is strictly closer to this name than `rhs`.
    pub fn closer(&self, lhs: &XorName, rhs: &XorName) -> (b: bool)
        ensures
            b == (self.distance(*lhs) < self.distance(*rhs)),
    {
        let lh: u128 = self.hi ^ lhs.hi;
        let rh: u128 = self.hi ^ rhs.hi;
        if lh != rh {
            lh < rh
        } else {
            (self.lo ^ lhs.lo) < (self.lo ^ rhs.lo)
        }
    }
}

} // verus!
