//! The collection of the signatures of a section for one message.
//!
//! A message of a section is signed by its elders one by one. The
//! accumulator keeps, for the digest of each such message, the names of the
//! elders whose signature has arrived. Once their number reaches the quorum
//! that the consensus collaborator asks for, the message is complete and
//! the accumulator forgets it.
//!
//! The model of an accumulator is a map from the digests of the messages
//! that are still incomplete to the names of their signers.

use vstd::prelude::*;
use crate::chain::EldersInfo;
use crate::crypto::Digest256;
use crate::xor_name::XorName;

verus! {

struct Collected {
    digest: Digest256,
    signers: Vec<XorName>,
}

spec fn has_digest(entries: Seq<Collected>, digest: Digest256) -> bool {
    exists|i: int| 0 <= i < entries.len() && (#[trigger] entries[i]).digest == digest
}

spec fn index_of_digest(entries: Seq<Collected>, digest: Digest256) -> int {
    choose|i: int| 0 <= i < entries.len() && (#[trigger] entries[i]).digest == digest
}

spec fn distinct_digests(entries: Seq<Collected>) -> bool {
    forall|i: int, j: int|
        0 <= i < entries.len() && 0 <= j < entries.len() && i != j ==> (#[trigger] entries[i]).digest != (
        #[trigger] entries[j]).digest
}

spec fn collected_map(entries: Seq<Collected>) -> Map<Digest256, Set<XorName>> {
    Map::new(
        |digest: Digest256| has_digest(entries, digest),
        |digest: Digest256| entries[index_of_digest(entries, digest)].signers@.to_set(),
    )
}

proof fn lemma_collected_in_map(entries: Seq<Collected>, i: int)
    requires
        distinct_digests(entries),
        0 <= i < entries.len(),
    ensures
        collected_map(entries).contains_key(entries[i].digest),
        collected_map(entries)[entries[i].digest] == entries[i].signers@.to_set(),
{
}

/// The signers of the message with this digest so far.
pub open spec fn signers_of(collected: Map<Digest256, Set<XorName>>, digest: Digest256) -> Set<XorName> {
    if collected.contains_key(digest) {
        collected[digest]
    } else {
        Set::empty()
    }
}

/// The signature of `signer` completes the message with this digest: the
/// signer is one of `elders`, and with it the signers are `quorum` or more.
pub open spec fn completes(
    collected: Map<Digest256, Set<XorName>>,
    digest: Digest256,
    signer: XorName,
    elders: Set<XorName>,
    quorum: usize,
) -> bool {
    elders.contains(signer) && signers_of(collected, digest).insert(signer).len() >= quorum
}

/// What is collected after the signature of `signer` for the message with
/// this digest has arrived. The signature of a node that is no elder is
/// ignored; a message that is complete is forgotten.
pub open spec fn after_signature(
    collected: Map<Digest256, Set<XorName>>,
    digest: Digest256,
    signer: XorName,
    elders: Set<XorName>,
    quorum: usize,
) -> Map<Digest256, Set<XorName>> {
    if !elders.contains(signer) {
        collected
    } else if completes(collected, digest, signer, elders, quorum) {
        collected.remove(digest)
    } else {
        collected.insert(digest, signers_of(collected, digest).insert(signer))
    }
}

/// Collects the signatures of messages of a section.
pub struct SignatureAccumulator {
    entries: Vec<Collected>,
}

impl View for SignatureAccumulator {
    type V = Map<Digest256, Set<XorName>>;

    closed spec fn view(&self) -> Map<Digest256, Set<XorName>> {
        collected_map(self.entries@)
    }
}

/// Returns whether `name` is among `names`.
fn holds_name(names: &Vec<XorName>, name: &XorName) -> (b: bool)
    ensures
        b == names@.to_set().contains(*name),
{
    let mut i: usize = 0;
    while i < names.len()
        invariant
            i <= names@.len(),
            forall|j: int| 0 <= j < i ==> names@[j] != *name,
        decreases names@.len() - i,
    {
        if names[i] == *name {
            return true;
        }
        i = i + 1;
    }
    false
}

impl SignatureAccumulator {
    #[verifier::type_invariant]
    spec fn inv(self) -> bool {
        &&& distinct_digests(self.entries@)
        &&& forall|i: int| 0 <= i < self.entries@.len() ==> (#[trigger] self.entries@[i]).signers@.no_duplicates()
    }

    /// Creates an accumulator without signatures.
    pub fn new() -> (accumulator: SignatureAccumulator)
        ensures
            accumulator@ == Map::<Digest256, Set<XorName>>::empty(),
    {
        SignatureAccumulator { entries: Vec::new() }
    }

    /// Returns how many elders have signed the message with this digest so
    /// far, as long as the message is incomplete.
    pub fn signature_count(&self, digest: &Digest256) -> (n: usize)
        ensures
            n == signers_of(self@, *digest).len(),
    {
        proof {
            use_type_invariant(self);
        }
        let mut i: usize = 0;
        while i < self.entries.len()
            invariant
                i <= self.entries@.len(),
                distinct_digests(self.entries@),
                forall|j: int| 0 <= j < i ==> (#[trigger] self.entries@[j]).digest != *digest,
                forall|j: int| 0 <= j < self.entries@.len() ==> (#[trigger] self.entries@[j]).signers@.no_duplicates(),
            decreases self.entries@.len() - i,
        {
            if self.entries[i].digest == *digest {
                proof {
                    lemma_collected_in_map(self.entries@, i as int);
                    self.entries@[i as int].signers@.unique_seq_to_set();
                }
                return self.entries[i].signers.len();
            }
            i = i + 1;
        }
        0
    }

    /// Takes in the signature of `signer` for the message with this digest,
    /// where `elders` are the elders of the section that the message comes
    /// from and `quorum` is the number of them that must have signed.
    /// Returns whether the message is complete with this signature. The
    /// signature of a node that is none of the elders is ignored.
    pub fn add_signature(&mut self, digest: &Digest256, signer: XorName, elders: &EldersInfo, quorum: usize) -> (complete: bool)
        ensures
            complete == completes(old(self)@, *digest, signer, elders@.elder_set(), quorum),
            final(self)@ == after_signature(old(self)@, *digest, signer, elders@.elder_set(), quorum),
    {
        proof {
            use_type_invariant(&*self);
        }
        if !elders.has_elder(&signer) {
            return false;
        }
        let ghost before = self.entries@;
        let ghost model = self@;
        let mut kept: Vec<Collected> = Vec::new();
        let mut signers: Vec<XorName> = Vec::new();
        let ghost mut found = false;
        let mut entries: Vec<Collected> = Vec::new();
        core::mem::swap(&mut self.entries, &mut entries);
        assert(self@ =~= Map::<Digest256, Set<XorName>>::empty());
        while entries.len() > 0
            invariant
                self.entries@.len() == 0,
                distinct_digests(before),
                forall|j: int| 0 <= j < before.len() ==> (#[trigger] before[j]).signers@.no_duplicates(),
                entries@.len() <= before.len(),
                entries@ == before.take(entries@.len() as int),
                distinct_digests(kept@),
                forall|j: int| 0 <= j < kept@.len() ==> (#[trigger] kept@[j]).signers@.no_duplicates(),
                forall|j: int| 0 <= j < kept@.len() ==> (#[trigger] kept@[j]).digest != *digest,
                forall|j: int| 0 <= j < kept@.len() ==> came_from(#[trigger] kept@[j], before, entries@.len() as int),
                forall|m: int|
                    entries@.len() <= m < before.len() && (#[trigger] before[m]).digest != *digest ==> is_among(
                        kept@,
                        before[m],
                    ),
                found == exists|m: int| entries@.len() <= m < before.len() && (#[trigger] before[m]).digest == *digest,
                found ==> exists|m: int|
                    entries@.len() <= m < before.len() && (#[trigger] before[m]).digest == *digest && signers@
                        == before[m].signers@,
                !found ==> signers@.len() == 0,
                signers@.no_duplicates(),
            decreases entries@.len(),
        {
            let ghost kept_old = kept@;
            let entry = entries.pop().unwrap();
            let ghost at = entries@.len() as int;
            if entry.digest == *digest {
                signers = entry.signers;
                proof {
                    found = true;
                }
            } else {
                proof {
                    assert forall|j: int| 0 <= j < kept_old.len() implies (#[trigger] kept_old[j]).digest != entry.digest by {
                        let m = choose|m: int| at + 1 <= m < before.len() && #[trigger] before[m] == kept_old[j];
                        assert(before[m].digest != before[at].digest);
                    }
                }
                kept.push(entry);
            }
            proof {
                assert forall|j: int| 0 <= j < kept@.len() implies came_from(#[trigger] kept@[j], before, at) by {
                    if j < kept_old.len() {
                        let m = choose|m: int| at + 1 <= m < before.len() && #[trigger] before[m] == kept_old[j];
                        assert(before[m] == kept@[j]);
                    }
                }
                assert forall|m: int| at <= m < before.len() && (#[trigger] before[m]).digest != *digest implies is_among(
                    kept@,
                    before[m],
                ) by {
                    if m > at {
                        let j = choose|j: int| 0 <= j < kept_old.len() && #[trigger] kept_old[j] == before[m];
                        assert(kept@[j] == before[m]);
                    } else {
                        assert(kept@[kept_old.len() as int] == before[m]);
                    }
                }
            }
        }
        proof {
            if found {
                let m = choose|m: int| 0 <= m < before.len() && (#[trigger] before[m]).digest == *digest && signers@
                    == before[m].signers@;
                lemma_collected_in_map(before, m);
            }
            signers@.unique_seq_to_set();
        }
        let ghost signed_before = signers@;
        if !holds_name(&signers, &signer) {
            signers.push(signer);
            proof {
                assert(signers@.no_duplicates());
                assert(signers@.to_set() =~= signed_before.to_set().insert(signer)) by {
                    assert forall|n: XorName| signers@.to_set().contains(n) == signed_before.to_set().insert(signer).contains(
                        n,
                    ) by {
                        if signers@.contains(n) {
                            let k = choose|k: int| 0 <= k < signers@.len() && signers@[k] == n;
                            assert(k == signed_before.len() || signed_before[k] == n);
                        }
                        if signed_before.contains(n) {
                            let k = choose|k: int| 0 <= k < signed_before.len() && signed_before[k] == n;
                            assert(signers@[k] == n);
                        }
                        if n == signer {
                            assert(signers@[signed_before.len() as int] == n);
                        }
                    }
                }
            }
        }
        proof {
            signers@.unique_seq_to_set();
        }
        let complete = signers.len() >= quorum;
        let ghost live_kept = kept@;
        if !complete {
            kept.push(Collected { digest: *digest, signers });
        }
        self.entries = kept;
        proof {
            let after = self.entries@;
            let expected = after_signature(model, *digest, signer, elders@.elder_set(), quorum);
            assert forall|d: Digest256| #[trigger] expected.contains_key(d) implies self@.contains_key(d) && self@[d]
                == expected[d] by {
                if d == *digest {
                    lemma_collected_in_map(after, after.len() - 1);
                } else {
                    let m = index_of_digest(before, d);
                    lemma_collected_in_map(before, m);
                    let j = choose|j: int| 0 <= j < live_kept.len() && #[trigger] live_kept[j] == before[m];
                    lemma_collected_in_map(after, j);
                }
            }
            assert forall|d: Digest256| #[trigger] self@.contains_key(d) implies expected.contains_key(d) by {
                let j = index_of_digest(after, d);
                if j < live_kept.len() {
                    let m = choose|m: int| 0 <= m < before.len() && #[trigger] before[m] == live_kept[j];
                    lemma_collected_in_map(before, m);
                }
            }
        }
        complete
    }
}

/// The entry is one of those of `before` from position `from` on.
spec fn came_from(entry: Collected, before: Seq<Collected>, from: int) -> bool {
    exists|m: int| from <= m < before.len() && #[trigger] before[m] == entry
}

/// The entry is one of `entries`.
spec fn is_among(entries: Seq<Collected>, entry: Collected) -> bool {
    exists|j: int| 0 <= j < entries.len() && #[trigger] entries[j] == entry
}

} // verus!
