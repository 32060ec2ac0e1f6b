//! Values that the cryptographic collaborator hands to the router: digests
//! and signatures. The router stores and compares them; it computes none.

use vstd::prelude::*;

verus! {

/// A 32-byte content hash of a serialised message, held as two 128-bit words.
#[derive(Clone, Copy, Debug, PartialEq, Eq, Structural, Hash)]
pub struct Digest256 {
    pub hi: u128,
    pub lo: u128,
}

/// A signature, opaque to the router.
#[derive(Clone, Debug, PartialEq, Eq)]
pub struct Signature {
    pub bytes: Vec<u8>,
}

} // verus!
