//! Prefixes: leading bit strings that name the sections of the address space.
//!
//! The mathematical model of a prefix is its bit string, a `Seq<bool>` of at
//! most 256 bits. A name matches a prefix when the name starts with that bit
//! string, so the prefixes form a binary trie over the names.

use vstd::prelude::*;
use crate::xor_name::{lemma_bits_determine_name, XorName};

verus! {

/// The name starts with the bit string `bits`.
pub open spec fn bits_match(bits: Seq<bool>, name: XorName) -> bool {
    forall|j: int| 0 <= j < bits.len() ==> #[trigger] bits[j] == name.bit_at(j)
}

/// One of the two bit strings starts with the other.
pub open spec fn bits_compatible(a: Seq<bool>, b: Seq<bool>) -> bool {
    forall|j: int| 0 <= j < a.len() && j < b.len() ==> #[trigger] a[j] == b[j]
}

/// The two bit strings differ in exactly one position among those that both have.
pub open spec fn bits_neighbour(a: Seq<bool>, b: Seq<bool>) -> bool {
    exists|i: int|
        0 <= i < a.len() && i < b.len() && #[trigger] a[i] != b[i] && forall|j: int|
            0 <= j < a.len() && j < b.len() && j != i ==> #[trigger] a[j] == b[j]
}

/// Every name that starts with `bits` starts with one of the bit strings of `set`.
pub open spec fn bits_covered_by(bits: Seq<bool>, set: Seq<Seq<bool>>) -> bool {
    forall|name: XorName| #[trigger]
        bits_match(bits, name) ==> exists|k: int| 0 <= k < set.len() && bits_match(#[trigger] set[k], name)
}

/// A name can be the stored name of a prefix of `bit_count` bits: there are
/// that many bits in a name, and the bits of `name` after them are zero.
pub open spec fn is_canonical(bit_count: int, name: XorName) -> bool {
    bit_count <= 256 && forall|j: int| bit_count <= j < 256 ==> !#[trigger] name.bit_at(j)
}

/// The bit strings of a sequence of prefixes.
pub open spec fn bit_strings(prefixes: Seq<Prefix>) -> Seq<Seq<bool>> {
    Seq::new(prefixes.len(), |k: int| prefixes[k]@)
}

/// A prefix of the address space: the first `bit_count` bits of `name`.
///
/// The bits of `name` after the first `bit_count` are zero, so two prefixes
/// with the same bit string are the same value.
#[derive(Clone, Copy, Debug, PartialEq, Eq, Structural, Hash)]
pub struct Prefix {
    bit_count: u16,
    name: XorName,
}

impl View for Prefix {
    type V = Seq<bool>;

    closed spec fn view(&self) -> Seq<bool> {
        Seq::new(self.bit_count as nat, |j: int| self.name.bit_at(j))
    }
}

impl Prefix {
    #[verifier::type_invariant]
    spec fn inv(self) -> bool {
        &&& self.bit_count <= 256
        &&& forall|j: int| self.bit_count <= j < 256 ==> !#[trigger] self.name.bit_at(j)
    }

    /// The prefix is well formed: it has at most 256 bits, and what follows
    /// them in its stored name is zero. Every prefix built by this module is.
    pub closed spec fn wf(self) -> bool {
        self.inv()
    }

    /// The stored name: the bits of the prefix followed by zeros.
    pub closed spec fn name_spec(self) -> XorName {
        self.name
    }

    /// A well-formed prefix is determined by its bits: two well-formed
    /// prefixes with the same bit string are the same prefix.
    pub proof fn lemma_bits_determine_prefix(self, other: Prefix)
        requires
            self.wf(),
            other.wf(),
            self@ == other@,
        ensures
            self == other,
    {
        assert(self@.len() == self.bit_count);
        assert forall|j: int| 0 <= j < 256 implies #[trigger] self.name.bit_at(j) == other.name.bit_at(j) by {
            if j < self.bit_count {
                assert(self@[j] == self.name.bit_at(j));
            }
        }
        lemma_bits_determine_name(self.name, other.name);
    }

    /// The prefix made of the first `bit_count` bits of `name`, where what
    /// follows them in `name` is zero.
    pub closed spec fn from_parts(bit_count: u16, name: XorName) -> Prefix {
        Prefix { bit_count, name }
    }

    /// A well-formed prefix is made of its length and its stored name.
    pub proof fn lemma_from_own_parts(self)
        requires
            self.wf(),
        ensures
            self@.len() <= 256,
            is_canonical(self@.len() as int, self.name_spec()),
            Prefix::from_parts(self@.len() as u16, self.name_spec()) == self,
    {
    }

    /// Returns the prefix made of the first `bit_count` bits of `name`, if
    /// there are that many and what follows them in `name` is zero.
    pub fn from_canonical(bit_count: u16, name: XorName) -> (r: Option<Prefix>)
        ensures
            match r {
                Some(p) => is_canonical(bit_count as int, name) && p == Prefix::from_parts(bit_count, name) && p.wf()
                    && p@.len() == bit_count && p.name_spec() == name,
                None => !is_canonical(bit_count as int, name),
            },
    {
        if bit_count > 256 {
            return None;
        }
        let p = Prefix::new(bit_count as usize, name);
        if p.name == name {
            Some(p)
        } else {
            proof {
                if is_canonical(bit_count as int, name) {
                    assert forall|j: int| 0 <= j < 256 implies #[trigger] p.name.bit_at(j) == name.bit_at(j) by {
                        if j < bit_count {
                            assert(p@[j] == name.bit_at(j));
                        }
                    }
                    lemma_bits_determine_name(p.name, name);
                }
            }
            None
        }
    }

    /// The name matches the prefix.
    pub open spec fn matches_spec(self, name: XorName) -> bool {
        bits_match(self@, name)
    }

    /// One of the two prefixes is a prefix of the other.
    pub open spec fn is_compatible_spec(self, other: Prefix) -> bool {
        bits_compatible(self@, other@)
    }

    /// Creates the prefix made of the first `bit_count` bits of `name`, or of
    /// all 256 where `bit_count` is larger.
    pub fn new(bit_count: usize, name: XorName) -> (p: Prefix)
        ensures
            p.wf(),
            p@.len() == (if bit_count <= 256 { bit_count as int } else { 256 }),
            bits_match(p@, name),
    {
        let n: usize = if bit_count <= 256 { bit_count } else { 256 };
        Prefix { bit_count: n as u16, name: name.set_remaining(n, false) }
    }

    /// Returns the number of bits in the prefix.
    pub fn bit_count(&self) -> (n: usize)
        ensures
            n == self@.len(),
            n <= 256,
            self.wf(),
    {
        proof {
            use_type_invariant(self);
        }
        self.bit_count as usize
    }

    /// Returns whether the prefix has no bits, and so matches every name.
    pub fn is_empty(&self) -> (b: bool)
        ensures
            b == (self@.len() == 0),
    {
        self.bit_count == 0
    }

    /// Returns the smallest name that matches the prefix: the bits of the
    /// prefix, followed by zeros.
    pub fn name(&self) -> (n: XorName)
        ensures
            n == self.name_spec(),
            self.matches_spec(n),
            is_canonical(self@.len() as int, n),
    {
        proof {
            use_type_invariant(self);
        }
        self.name
    }

    /// Returns whether the name starts with the bits of the prefix.
    pub fn matches(&self, name: &XorName) -> (b: bool)
        ensures
            b == self.matches_spec(*name),
    {
        proof {
            use_type_invariant(self);
        }
        let n: usize = self.bit_count as usize;
        let mut i: usize = 0;
        while i < n
            invariant
                i <= n,
                n == self.bit_count,
                n <= 256,
                forall|j: int| 0 <= j < i ==> #[trigger] self@[j] == name.bit_at(j),
            decreases n - i,
        {
            if self.name.bit(i) != name.bit(i) {
                assert(self@[i as int] != name.bit_at(i as int));
                return false;
            }
            i = i + 1;
        }
        true
    }

    /// Returns whether one of the two prefixes is a prefix of the other.
    pub fn is_compatible(&self, other: &Prefix) -> (b: bool)
        ensures
            b == self.is_compatible_spec(*other),
    {
        proof {
            use_type_invariant(self);
            use_type_invariant(other);
        }
        let n: usize = if self.bit_count <= other.bit_count { self.bit_count as usize } else { other.bit_count as usize };
        let mut i: usize = 0;
        while i < n
            invariant
                i <= n,
                n <= self.bit_count,
                n <= other.bit_count,
                n == self.bit_count || n == other.bit_count,
                n <= 256,
                forall|j: int| 0 <= j < i ==> #[trigger] self@[j] == other@[j],
            decreases n - i,
        {
            if self.name.bit(i) != other.name.bit(i) {
                assert(self@[i as int] != other@[i as int]);
                return false;
            }
            i = i + 1;
        }
        true
    }

    /// Returns whether the two prefixes have the same bits.
    pub fn same_bits(&self, other: &Prefix) -> (b: bool)
        ensures
            b == (self@ == other@),
    {
        if self.bit_count != other.bit_count {
            assert(self@.len() != other@.len());
            return false;
        }
        let b = self.is_compatible(other);
        proof {
            if b {
                assert(self@ =~= other@);
            }
        }
        b
    }

    /// Returns whether the two prefixes differ in exactly one bit among the
    /// bits of the shorter one.
    pub fn is_neighbour(&self, other: &Prefix) -> (b: bool)
        ensures
            b == bits_neighbour(self@, other@),
    {
        proof {
            use_type_invariant(self);
            use_type_invariant(other);
        }
        let n: usize = if self.bit_count <= other.bit_count { self.bit_count as usize } else { other.bit_count as usize };
        let mut i: usize = 0;
        while i < n && self.name.bit(i) == other.name.bit(i)
            invariant
                i <= n,
                n <= self.bit_count,
                n <= other.bit_count,
                n == self.bit_count || n == other.bit_count,
                n <= 256,
                forall|j: int| 0 <= j < i ==> #[trigger] self@[j] == other@[j],
            decreases n - i,
        {
            i = i + 1;
        }
        if i >= n {
            return false;
        }
        let first: usize = i;
        i = i + 1;
        while i < n
            invariant
                first < i <= n,
                n <= self.bit_count,
                n <= other.bit_count,
                n == self.bit_count || n == other.bit_count,
                n <= 256,
                self@[first as int] != other@[first as int],
                forall|j: int| 0 <= j < i && j != first ==> #[trigger] self@[j] == other@[j],
            decreases n - i,
        {
            if self.name.bit(i) != other.name.bit(i) {
                assert(self@[i as int] != other@[i as int]);
                return false;
            }
            i = i + 1;
        }
        true
    }

    /// Returns the prefix extended by one bit. A prefix of 256 bits is returned unchanged.
    pub fn pushed(self, bit: bool) -> (p: Prefix)
        ensures
            p.wf(),
            self@.len() < 256 ==> p@ == self@.push(bit),
            self@.len() >= 256 ==> p == self,
    {
        proof {
            use_type_invariant(&self);
        }
        if self.bit_count >= 256 {
            return self;
        }
        Prefix { bit_count: self.bit_count + 1, name: self.name.with_bit(self.bit_count as usize, bit) }
    }

    /// Returns the prefix without its last bit. The empty prefix is returned unchanged.
    pub fn popped(self) -> (p: Prefix)
        ensures
            p.wf(),
            self@.len() > 0 ==> p@ == self@.drop_last(),
            self@.len() == 0 ==> p == self,
    {
        proof {
            use_type_invariant(&self);
        }
        if self.bit_count == 0 {
            return self;
        }
        let n: usize = (self.bit_count - 1) as usize;
        Prefix { bit_count: self.bit_count - 1, name: self.name.set_remaining(n, false) }
    }

    /// Returns the prefix with bit `i` inverted. Where the prefix has no bit
    /// `i` it is returned unchanged.
    pub fn with_flipped_bit(self, i: usize) -> (p: Prefix)
        ensures
            p.wf(),
            i < self@.len() ==> p@ == self@.update(i as int, !self@[i as int]),
            i >= self@.len() ==> p == self,
    {
        proof {
            use_type_invariant(&self);
        }
        if i >= self.bit_count as usize {
            return self;
        }
        Prefix { bit_count: self.bit_count, name: self.name.with_flipped_bit(i) }
    }

    /// Returns the prefix with its last bit inverted: the other half of the
    /// parent. The empty prefix is its own sibling.
    pub fn sibling(self) -> (p: Prefix)
        ensures
            p.wf(),
            self@.len() > 0 ==> p@ == self@.update(self@.len() - 1, !self@.last()),
            self@.len() == 0 ==> p == self,
    {
        proof {
            use_type_invariant(&self);
        }
        if self.bit_count == 0 {
            return self;
        }
        self.with_flipped_bit((self.bit_count - 1) as usize)
    }

    /// Returns the largest name that matches the prefix.
    pub fn upper_bound(&self) -> (n: XorName)
        ensures
            self.matches_spec(n),
            forall|j: int| self@.len() <= j < 256 ==> #[trigger] n.bit_at(j),
    {
        proof {
            use_type_invariant(self);
        }
        self.name.set_remaining(self.bit_count as usize, true)
    }

    /// Returns the smallest and the largest name that match the prefix.
    pub fn range_inclusive(&self) -> (r: (XorName, XorName))
        ensures
            self.matches_spec(r.0),
            self.matches_spec(r.1),
            forall|j: int| self@.len() <= j < 256 ==> !#[trigger] r.0.bit_at(j),
            forall|j: int| self@.len() <= j < 256 ==> #[trigger] r.1.bit_at(j),
    {
        proof {
            use_type_invariant(self);
        }
        (self.name, self.upper_bound())
    }
}

impl Prefix {
    /// Some prefix of `prefixes` is this prefix or one of its ancestors.
    pub open spec fn has_ancestor_in_spec(self, prefixes: Seq<Prefix>) -> bool {
        exists|k: int|
            0 <= k < prefixes.len() && (#[trigger] prefixes[k])@.len() <= self@.len() && bits_compatible(
                prefixes[k]@,
                self@,
            )
    }

    /// Returns whether `prefixes` holds this prefix or one of its ancestors.
    fn has_ancestor_in(&self, prefixes: &Vec<Prefix>) -> (b: bool)
        ensures
            b == self.has_ancestor_in_spec(prefixes@),
    {
        let mut k: usize = 0;
        while k < prefixes.len()
            invariant
                k <= prefixes.len(),
                forall|i: int|
                    0 <= i < k ==> !((#[trigger] prefixes@[i])@.len() <= self@.len() && bits_compatible(
                        prefixes@[i]@,
                        self@,
                    )),
            decreases prefixes.len() - k,
        {
            if prefixes[k].bit_count() <= self.bit_count() && prefixes[k].is_compatible(self) {
                return true;
            }
            k = k + 1;
        }
        false
    }

    /// Decides coverage by descending the trie below this prefix, as far as the
    /// longest of `prefixes` reaches.
    fn is_covered_by_impl(&self, prefixes: &Vec<Prefix>, max_len: usize) -> (b: bool)
        requires
            max_len <= 256,
            forall|k: int| 0 <= k < prefixes.len() ==> (#[trigger] prefixes@[k])@.len() <= max_len,
        ensures
            b == bits_covered_by(self@, bit_strings(prefixes@)),
        decreases max_len + 1 - self@.len(),
    {
        let set = Ghost(bit_strings(prefixes@));
        let n = self.bit_count();
        if self.has_ancestor_in(prefixes) {
            proof {
                let k = choose|k: int|
                    0 <= k < prefixes@.len() && (#[trigger] prefixes@[k])@.len() <= self@.len() && bits_compatible(
                        prefixes@[k]@,
                        self@,
                    );
                assert forall|name: XorName| #[trigger] bits_match(self@, name) implies exists|i: int|
                    0 <= i < set@.len() && bits_match(#[trigger] set@[i], name) by {
                    assert(bits_match(set@[k], name));
                }
            }
            return true;
        }
        if n < 256 && n <= max_len {
            let zero = self.pushed(false);
            let one = self.pushed(true);
            proof {
                lemma_halves_cover(self@, set@);
            }
            if !zero.is_covered_by_impl(prefixes, max_len) {
                return false;
            }
            one.is_covered_by_impl(prefixes, max_len)
        } else {
            proof {
                let name = self.name;
                assert(bits_match(self@, name));
                assert forall|i: int| 0 <= i < set@.len() implies !bits_match(#[trigger] set@[i], name) by {
                }
            }
            false
        }
    }

    /// Returns whether every name that matches this prefix matches one of `prefixes`.
    pub fn is_covered_by(&self, prefixes: &Vec<Prefix>) -> (b: bool)
        ensures
            b == bits_covered_by(self@, bit_strings(prefixes@)),
    {
        let mut max_len: usize = 0;
        let mut k: usize = 0;
        while k < prefixes.len()
            invariant
                k <= prefixes.len(),
                max_len <= 256,
                forall|i: int| 0 <= i < k ==> (#[trigger] prefixes@[i])@.len() <= max_len,
            decreases prefixes.len() - k,
        {
            let n = prefixes[k].bit_count();
            if n > max_len {
                max_len = n;
            }
            k = k + 1;
        }
        self.is_covered_by_impl(prefixes, max_len)
    }
}

/// Compatibility is reflexive.
pub proof fn lemma_compatible_reflexive(a: Seq<bool>)
    ensures
        bits_compatible(a, a),
{
}

/// Compatibility is symmetric.
pub proof fn lemma_compatible_symmetric(a: Seq<bool>, b: Seq<bool>)
    ensures
        bits_compatible(a, b) == bits_compatible(b, a),
{
}

/// The two extensions of a bit string by one bit partition the names that
/// start with it: such a name starts with exactly one of them, and a name
/// that starts with either starts with the bit string.
pub proof fn lemma_pushed_partitions(bits: Seq<bool>, name: XorName)
    ensures
        bits_match(bits.push(false), name) == (bits_match(bits, name) && !name.bit_at(bits.len() as int)),
        bits_match(bits.push(true), name) == (bits_match(bits, name) && name.bit_at(bits.len() as int)),
        bits_match(bits, name) == (bits_match(bits.push(false), name) || bits_match(bits.push(true), name)),
        !(bits_match(bits.push(false), name) && bits_match(bits.push(true), name)),
{
    lemma_pushed_matches(bits, false, name);
    lemma_pushed_matches(bits, true, name);
}

proof fn lemma_pushed_matches(bits: Seq<bool>, bit: bool, name: XorName)
    ensures
        bits_match(bits.push(bit), name) == (bits_match(bits, name) && name.bit_at(bits.len() as int) == bit),
{
    let ext = bits.push(bit);
    if bits_match(ext, name) {
        assert forall|j: int| 0 <= j < bits.len() implies #[trigger] bits[j] == name.bit_at(j) by {
            assert(ext[j] == name.bit_at(j));
        }
        assert(ext[bits.len() as int] == name.bit_at(bits.len() as int));
    }
}

/// A bit string is covered exactly when both of its extensions by one bit are.
pub proof fn lemma_halves_cover(bits: Seq<bool>, set: Seq<Seq<bool>>)
    ensures
        bits_covered_by(bits, set) == (bits_covered_by(bits.push(false), set) && bits_covered_by(
            bits.push(true),
            set,
        )),
{
    let zero = bits.push(false);
    let one = bits.push(true);
    if bits_covered_by(bits, set) {
        assert forall|name: XorName| #[trigger] bits_match(zero, name) implies exists|k: int|
            0 <= k < set.len() && bits_match(#[trigger] set[k], name) by {
            lemma_pushed_partitions(bits, name);
        }
        assert forall|name: XorName| #[trigger] bits_match(one, name) implies exists|k: int|
            0 <= k < set.len() && bits_match(#[trigger] set[k], name) by {
            lemma_pushed_partitions(bits, name);
        }
    }
    if bits_covered_by(zero, set) && bits_covered_by(one, set) {
        assert forall|name: XorName| #[trigger] bits_match(bits, name) implies exists|k: int|
            0 <= k < set.len() && bits_match(#[trigger] set[k], name) by {
            lemma_pushed_partitions(bits, name);
        }
    }
}

impl Default for Prefix {
    /// The empty prefix, which matches every name.
    fn default() -> (p: Prefix)
        ensures
            p@.len() == 0,
            p.wf(),
    {
        Prefix { bit_count: 0, name: XorName::zero() }
    }
}

} // verus!
