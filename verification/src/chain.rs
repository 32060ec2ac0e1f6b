//! What a node knows of the sections of the network.

use vstd::prelude::*;
use crate::p2p_node::P2pNode;
use crate::prefix::Prefix;
use crate::xor_name::XorName;

verus! {

/// The sizes that govern when sections are viable and when they split.
#[derive(Clone, Copy, Debug, PartialEq, Eq, Structural)]
pub struct NetworkParams {
    /// The number of elders that a section needs.
    pub elder_size: usize,
    /// The number of members at which each half of a section could stand alone.
    pub safe_section_size: usize,
}

impl Default for NetworkParams {
    fn default() -> (params: NetworkParams)
        ensures
            params == (NetworkParams { elder_size: 7, safe_section_size: 100 }),
    {
        NetworkParams { elder_size: 7, safe_section_size: 100 }
    }
}

/// The names of the nodes of `members`.
pub open spec fn names_of(members: Seq<P2pNode>) -> Seq<XorName> {
    Seq::new(members.len(), |i: int| members[i].public_id.name)
}

/// The nodes are in the order of their names, read as numbers, and no
/// name occurs twice.
pub open spec fn sorted_by_name(members: Seq<P2pNode>) -> bool {
    forall|i: int, j: int|
        0 <= i < j < members.len() ==> (#[trigger] members[i]).public_id.name.lt_spec((#[trigger] members[j]).public_id.name)
}

/// The model of an `EldersInfo`: the prefix of a section, the version of
/// its membership, and its elders.
pub struct SectionModel {
    pub prefix: Prefix,
    pub version: u64,
    pub members: Seq<P2pNode>,
}

impl SectionModel {
    /// The record is that of an `EldersInfo`: its prefix is well formed, and
    /// its elders come in the order of their names.
    pub open spec fn valid(self) -> bool {
        self.prefix.wf() && sorted_by_name(self.members)
    }

    /// The names of the elders.
    pub open spec fn elder_set(self) -> Set<XorName> {
        names_of(self.members).to_set()
    }

    /// Every elder has a name that matches the prefix of the section.
    pub open spec fn elders_match(self) -> bool {
        forall|name: XorName| #[trigger] self.elder_set().contains(name) ==> self.prefix.matches_spec(name)
    }

    /// The two records show the same version and the same elders.
    pub open spec fn agrees_with(self, other: SectionModel) -> bool {
        self.version == other.version && self.elder_set() == other.elder_set()
    }
}

/// The elders of a section at one version of its membership: a set of
/// nodes, held in the order of their names.
#[derive(Debug, PartialEq, Eq)]
pub struct EldersInfo {
    members: Vec<P2pNode>,
    version: u64,
    prefix: Prefix,
}

impl View for EldersInfo {
    type V = SectionModel;

    closed spec fn view(&self) -> SectionModel {
        SectionModel { prefix: self.prefix, version: self.version, members: self.members@ }
    }
}

impl EldersInfo {
    #[verifier::type_invariant]
    spec fn inv(self) -> bool {
        sorted_by_name(self.members@)
    }

    /// Records that `members` are the elders of the section `prefix` at
    /// `version`. Of several nodes with one name the first counts.
    pub fn new(members: Vec<P2pNode>, prefix: Prefix, version: u64) -> (info: EldersInfo)
        ensures
            info@.prefix == prefix,
            info@.version == version,
            info@.elder_set() == names_of(members@).to_set(),
            sorted_by_name(info@.members),
            forall|k: int| 0 <= k < info@.members.len() ==> members@.contains(#[trigger] info@.members[k]),
    {
        let mut sorted: Vec<P2pNode> = Vec::new();
        let mut i: usize = 0;
        while i < members.len()
            invariant
                i <= members@.len(),
                sorted_by_name(sorted@),
                forall|k: int| 0 <= k < sorted@.len() ==> members@.contains(#[trigger] sorted@[k]),
                forall|name: XorName| names_of(sorted@).contains(name) <==> names_of(members@.take(i as int)).contains(name),
            decreases members@.len() - i,
        {
            let node = members[i];
            let ghost before = sorted@;
            let mut at: usize = 0;
            while at < sorted.len() && sorted[at].public_id.name.less_than(&node.public_id.name)
                invariant
                    at <= sorted@.len(),
                    forall|k: int| 0 <= k < at ==> (#[trigger] sorted@[k]).public_id.name.lt_spec(node.public_id.name),
                decreases sorted@.len() - at,
            {
                at = at + 1;
            }
            let known = at < sorted.len() && sorted[at].public_id.name == node.public_id.name;
            if !known {
                sorted.insert(at, node);
                proof {
                    assert forall|a: int, b: int| 0 <= a < b < sorted@.len() implies (#[trigger] sorted@[a]).public_id.name.lt_spec(
                        (#[trigger] sorted@[b]).public_id.name,
                    ) by {
                    }
                }
            }
            proof {
                let head = members@.take(i as int);
                let next = members@.take(i + 1);
                assert forall|name: XorName| names_of(sorted@).contains(name) <==> names_of(next).contains(name) by {
                    if names_of(sorted@).contains(name) {
                        let k = choose|k: int| 0 <= k < sorted@.len() && names_of(sorted@)[k] == name;
                        if !known && k == at {
                            assert(names_of(next)[i as int] == name);
                        } else {
                            let e = if known || k < at { k } else { k - 1 };
                            assert(names_of(before)[e] == name);
                            assert(names_of(before).contains(name));
                            let m = choose|m: int| 0 <= m < head.len() && names_of(head)[m] == name;
                            assert(names_of(next)[m] == name);
                        }
                    }
                    if names_of(next).contains(name) {
                        let m = choose|m: int| 0 <= m < next.len() && names_of(next)[m] == name;
                        if m < i {
                            assert(names_of(head)[m] == name);
                            assert(names_of(before).contains(name));
                            let e = choose|e: int| 0 <= e < before.len() && names_of(before)[e] == name;
                            let k = if known || e < at { e } else { e + 1 };
                            assert(names_of(sorted@)[k] == name);
                        } else if known {
                            assert(names_of(sorted@)[at as int] == name);
                        } else {
                            assert(names_of(sorted@)[at as int] == name);
                        }
                    }
                }
            }
            i = i + 1;
        }
        proof {
            assert(members@.take(members@.len() as int) =~= members@);
        }
        EldersInfo { members: sorted, version, prefix }
    }

    /// Records that `members` are the elders of the section `prefix` at
    /// `version`, where they come in the order of their names and no name
    /// occurs twice among them.
    pub fn from_sorted(members: Vec<P2pNode>, prefix: Prefix, version: u64) -> (r: Option<EldersInfo>)
        ensures
            match r {
                Some(info) => sorted_by_name(members@) && info@ == (SectionModel { prefix, version, members: members@ }),
                None => !sorted_by_name(members@),
            },
    {
        let mut i: usize = 1;
        while i < members.len()
            invariant
                1 <= i,
                forall|a: int, b: int|
                    0 <= a < b < i && b < members@.len() ==> (#[trigger] members@[a]).public_id.name.lt_spec(
                        (#[trigger] members@[b]).public_id.name,
                    ),
            decreases members@.len() - i,
        {
            if !members[i - 1].public_id.name.less_than(&members[i].public_id.name) {
                return None;
            }
            i = i + 1;
        }
        Some(EldersInfo { members, version, prefix })
    }

    /// Returns the prefix of the section.
    pub fn prefix(&self) -> (p: Prefix)
        ensures
            p == self@.prefix,
    {
        self.prefix
    }

    /// Returns the version of the membership.
    pub fn version(&self) -> (v: u64)
        ensures
            v == self@.version,
    {
        self.version
    }

    /// Returns the elders, in the order of their names.
    pub fn members(&self) -> (members: &Vec<P2pNode>)
        ensures
            members@ == self@.members,
            sorted_by_name(members@),
    {
        proof {
            use_type_invariant(self);
        }
        &self.members
    }

    /// Returns the number of elders.
    pub fn elder_count(&self) -> (n: usize)
        ensures
            n == self@.elder_set().len(),
            n == self@.members.len(),
            self@.elder_set().finite(),
    {
        proof {
            use_type_invariant(self);
            lemma_sorted_names_distinct(self.members@);
            names_of(self.members@).unique_seq_to_set();
        }
        self.members.len()
    }

    /// Returns whether `name` is the name of an elder.
    pub fn has_elder(&self, name: &XorName) -> (b: bool)
        ensures
            b == self@.elder_set().contains(*name),
    {
        let mut i: usize = 0;
        while i < self.members.len()
            invariant
                i <= self.members@.len(),
                forall|j: int| 0 <= j < i ==> names_of(self.members@)[j] != *name,
            decreases self.members@.len() - i,
        {
            if self.members[i].public_id.name == *name {
                assert(names_of(self.members@)[i as int] == *name);
                return true;
            }
            i = i + 1;
        }
        false
    }

    /// Returns whether the name of every elder matches the prefix.
    pub fn all_elders_match(&self) -> (b: bool)
        ensures
            b == self@.elders_match(),
    {
        let mut i: usize = 0;
        while i < self.members.len()
            invariant
                i <= self.members@.len(),
                forall|j: int| 0 <= j < i ==> self.prefix.matches_spec(#[trigger] names_of(self.members@)[j]),
            decreases self.members@.len() - i,
        {
            if !self.prefix.matches(&self.members[i].public_id.name) {
                assert(names_of(self.members@)[i as int] == self.members@[i as int].public_id.name);
                assert(self@.elder_set().contains(self.members@[i as int].public_id.name));
                return false;
            }
            i = i + 1;
        }
        proof {
            assert forall|name: XorName| #[trigger] self@.elder_set().contains(name) implies self@.prefix.matches_spec(
                name,
            ) by {
            }
        }
        true
    }

    /// Every elder of this record is an elder of the other.
    fn elders_within(&self, other: &EldersInfo) -> (b: bool)
        ensures
            b == self@.elder_set().subset_of(other@.elder_set()),
    {
        let mut i: usize = 0;
        while i < self.members.len()
            invariant
                i <= self.members@.len(),
                forall|j: int| 0 <= j < i ==> other@.elder_set().contains(#[trigger] names_of(self.members@)[j]),
            decreases self.members@.len() - i,
        {
            if !other.has_elder(&self.members[i].public_id.name) {
                assert(names_of(self.members@)[i as int] == self.members@[i as int].public_id.name);
                return false;
            }
            i = i + 1;
        }
        proof {
            assert forall|name: XorName| self@.elder_set().contains(name) implies other@.elder_set().contains(name) by {
                let j = choose|j: int| 0 <= j < self.members@.len() && names_of(self.members@)[j] == name;
                assert(other@.elder_set().contains(names_of(self.members@)[j]));
            }
        }
        true
    }

    /// Returns whether the two records show the same version and the same elders.
    pub fn agrees(&self, other: &EldersInfo) -> (b: bool)
        ensures
            b == self@.agrees_with(other@),
    {
        if self.version != other.version {
            return false;
        }
        let b = self.elders_within(other) && other.elders_within(self);
        proof {
            if b {
                assert(self@.elder_set() =~= other@.elder_set());
            }
        }
        b
    }

    /// Returns a copy of the record.
    pub fn duplicate(&self) -> (copy: EldersInfo)
        ensures
            copy@ == self@,
    {
        proof {
            use_type_invariant(self);
        }
        let mut members: Vec<P2pNode> = Vec::new();
        let mut i: usize = 0;
        while i < self.members.len()
            invariant
                i <= self.members@.len(),
                members@ == self.members@.take(i as int),
            decreases self.members@.len() - i,
        {
            members.push(self.members[i]);
            i = i + 1;
        }
        assert(self.members@.take(self.members@.len() as int) =~= self.members@);
        EldersInfo { members, version: self.version, prefix: self.prefix }
    }
}

/// Nodes in the order of their names have distinct names.
pub proof fn lemma_sorted_names_distinct(members: Seq<P2pNode>)
    requires
        sorted_by_name(members),
    ensures
        names_of(members).no_duplicates(),
{
}

} // verus!
