//! Node identities.
//!
//! A `PublicId` is the public half of a node's identity; the node's name is
//! part of it. A `FullId` adds the signing secret, which the router carries
//! from one stage of the node's life to the next and never reads.

use vstd::prelude::*;
use crate::prefix::Prefix;
use crate::xor_name::XorName;

verus! {

/// A verifying key, opaque to the router.
#[derive(Clone, Copy, Debug, PartialEq, Eq, Structural, Hash)]
pub struct PublicKey {
    pub hi: u128,
    pub lo: u128,
}

/// The public identity of a node.
#[derive(Clone, Copy, Debug, PartialEq, Eq, Structural, Hash)]
pub struct PublicId {
    pub name: XorName,
    pub public_key: PublicKey,
}

impl PublicId {
    /// Returns the name of the node.
    pub fn name(&self) -> (n: XorName)
        ensures
            n == self.name,
    {
        self.name
    }
}

/// The full identity of a node: its public identity and its signing secret.
#[derive(Debug, PartialEq, Eq)]
pub struct FullId {
    pub public_id: PublicId,
    pub secret_key: Vec<u8>,
}

impl FullId {
    /// Returns the public half of the identity.
    pub fn public_id(&self) -> (id: PublicId)
        ensures
            id == self.public_id,
    {
        self.public_id
    }

    /// Returns the name of the node.
    pub fn name(&self) -> (n: XorName)
        ensures
            n == self.public_id.name,
    {
        self.public_id.name
    }

    /// Returns the first of the freshly drawn `candidates` whose name lies in
    /// `range`, or `None` if none of them does.
    pub fn within_range(candidates: Vec<FullId>, range: &Prefix) -> (found: Option<FullId>)
        ensures
            match found {
                Some(id) => exists|i: int|
                    0 <= i < candidates@.len() && id == #[trigger] candidates@[i] && range.matches_spec(
                        id.public_id.name,
                    ) && forall|j: int| 0 <= j < i ==> !range.matches_spec((#[trigger] candidates@[j]).public_id.name),
                None => forall|j: int|
                    0 <= j < candidates@.len() ==> !range.matches_spec((#[trigger] candidates@[j]).public_id.name),
            },
    {
        let mut pool = candidates;
        let mut i: usize = 0;
        while i < pool.len()
            invariant
                i <= pool@.len(),
                pool@ == candidates@,
                forall|j: int| 0 <= j < i ==> !range.matches_spec((#[trigger] candidates@[j]).public_id.name),
            decreases pool@.len() - i,
        {
            if range.matches(&pool[i].name()) {
                let id = pool.remove(i);
                return Some(id);
            }
            i = i + 1;
        }
        None
    }
}

} // verus!
