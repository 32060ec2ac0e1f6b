//! A node's knowledge of the network: its own section and, for an elder, the
//! neighbouring sections.
//!
//! A chain holds to the rules of section membership at all times. It is
//! made from knowledge that obeys them, and it takes in new knowledge only
//! where the rules still hold afterwards; an update that would break a rule
//! is refused and leaves the chain as it was.
//!
//! The model of a chain is the `NodeModel` of what the node knows.

use vstd::prelude::*;
use crate::chain::{EldersInfo, SectionModel};
use crate::event::Event;
use crate::location::SrcLocation;
use crate::invariants::{
    lemma_genesis_breaks_no_rule,
    section_models,
    verify_section_invariants_for_node,
    NodeModel,
    NodeView,
    NodeViolation,
};
use crate::outbox::Outbox;
use crate::p2p_node::P2pNode;
use crate::prefix::{
    bit_strings,
    bits_compatible,
    bits_covered_by,
    bits_match,
    bits_neighbour,
    lemma_pushed_partitions,
    Prefix,
};
use crate::xor_name::XorName;

verus! {

/// What a chain holds to: the rules of section membership, and that the
/// node is an elder exactly when it is among the elders of its section.
pub open spec fn chain_valid(node: NodeModel, elder_size: usize) -> bool {
    node.invariant_holds(elder_size) && node.is_elder == node.our_section.elder_set().contains(node.name)
}

/// Why a split was not applied.
#[derive(Clone, Copy, Debug, PartialEq, Eq, Structural)]
pub enum SplitError {
    /// The two records are not those of the two halves of the node's section.
    NotOurHalves,
    /// A record is older than what the node knows of its section.
    StaleVersion,
    /// The split would break this rule of section membership.
    Violation(NodeViolation),
}

impl NodeModel {
    /// The node may give `src` as the source of a message that it sends:
    /// itself, or its section if it is an elder of it.
    pub open spec fn in_src_location(self, src: SrcLocation) -> bool {
        match src {
            SrcLocation::Node(name) => name == self.name,
            SrcLocation::Section(prefix) => self.is_elder && prefix == self.our_section.prefix,
        }
    }

    /// The node knows a neighbour with this prefix.
    pub open spec fn knows_neighbour(self, prefix: Prefix) -> bool {
        exists|k: int| 0 <= k < self.neighbours.len() && (#[trigger] self.neighbours[k]).prefix == prefix
    }

    /// The position of the first neighbour with this prefix.
    pub open spec fn neighbour_index(self, prefix: Prefix) -> int {
        choose|k: int|
            0 <= k < self.neighbours.len() && (#[trigger] self.neighbours[k]).prefix == prefix && forall|j: int|
                0 <= j < k ==> (#[trigger] self.neighbours[j]).prefix != prefix
    }

    /// The record is no newer than what the node holds of that neighbour.
    pub open spec fn is_stale(self, info: SectionModel) -> bool {
        self.knows_neighbour(info.prefix) && info.version <= self.neighbours[self.neighbour_index(info.prefix)].version
    }

    /// What the node knows once the record has taken the place of the
    /// neighbour with its prefix, or has been added as a new neighbour.
    pub open spec fn with_neighbour(self, info: SectionModel) -> NodeModel {
        NodeModel {
            neighbours: if self.knows_neighbour(info.prefix) {
                self.neighbours.update(self.neighbour_index(info.prefix), info)
            } else {
                self.neighbours.push(info)
            },
            ..self
        }
    }

    /// What the node knows after it was offered the record of a neighbour:
    /// the record is taken in unless the node is an adult, the record is
    /// stale, or a rule of section membership would be broken.
    pub open spec fn offered_neighbour(self, info: SectionModel, elder_size: usize) -> NodeModel {
        if !self.is_elder || self.is_stale(info) || !self.with_neighbour(info).invariant_holds(elder_size) {
            self
        } else {
            self.with_neighbour(info)
        }
    }

    /// What the node knows after it was offered a record of its own
    /// section: the record is taken in unless it is of another section or
    /// no newer than the one held, or a rule of section membership would be
    /// broken.
    pub open spec fn offered_our_section(self, info: SectionModel, neighbours: Seq<SectionModel>, elder_size: usize) -> NodeModel {
        if !self.renews_our_section(info) || !self.with_our_section(info, neighbours).invariant_holds(elder_size) {
            self
        } else {
            self.with_our_section(info, neighbours)
        }
    }

    /// The record is a newer one of the node's own section.
    pub open spec fn renews_our_section(self, info: SectionModel) -> bool {
        info.prefix == self.our_section.prefix && info.version > self.our_section.version
    }

    /// What the node knows once the record has taken the place of that of
    /// its own section. A node that stays an elder keeps its neighbours, a
    /// node that becomes one starts with `neighbours`, and a node that is
    /// none knows no neighbour.
    pub open spec fn with_our_section(self, info: SectionModel, neighbours: Seq<SectionModel>) -> NodeModel {
        NodeModel {
            name: self.name,
            is_elder: info.elder_set().contains(self.name),
            our_section: info,
            neighbours: if !info.elder_set().contains(self.name) {
                Seq::empty()
            } else if self.is_elder {
                self.neighbours
            } else {
                neighbours
            },
        }
    }

    /// The two records are those of the two halves of the node's section,
    /// the first of the half whose next bit is 0.
    pub open spec fn are_our_halves(self, zero: SectionModel, one: SectionModel) -> bool {
        &&& self.our_section.prefix@.len() < 256
        &&& zero.prefix@ == self.our_section.prefix@.push(false)
        &&& one.prefix@ == self.our_section.prefix@.push(true)
    }

    /// The half of the node's section that the node's name belongs to.
    pub open spec fn our_half(self, zero: SectionModel, one: SectionModel) -> SectionModel {
        if self.name.bit_at(self.our_section.prefix@.len() as int) {
            one
        } else {
            zero
        }
    }

    /// The half of the node's section that the node's name does not belong to.
    pub open spec fn other_half(self, zero: SectionModel, one: SectionModel) -> SectionModel {
        if self.name.bit_at(self.our_section.prefix@.len() as int) {
            zero
        } else {
            one
        }
    }

    /// What the node knows once its section has split into the two halves.
    /// An elder of its half knows the other half and, if it was an elder
    /// before, those of its neighbours that are still neighbours of its
    /// half. A node that is no elder of its half knows no neighbour.
    pub open spec fn after_split(self, zero: SectionModel, one: SectionModel) -> NodeModel {
        NodeModel {
            name: self.name,
            is_elder: self.our_half(zero, one).elder_set().contains(self.name),
            our_section: self.our_half(zero, one),
            neighbours: if !self.our_half(zero, one).elder_set().contains(self.name) {
                Seq::empty()
            } else if self.is_elder {
                still_neighbours(self.neighbours, self.our_half(zero, one).prefix@).push(self.other_half(zero, one))
            } else {
                seq![self.other_half(zero, one)]
            },
        }
    }
}

/// Those of `sections` whose prefix is a neighbour of `prefix`, in their order.
pub open spec fn still_neighbours(sections: Seq<SectionModel>, prefix: Seq<bool>) -> Seq<SectionModel>
    decreases sections.len(),
{
    if sections.len() == 0 {
        Seq::empty()
    } else if bits_neighbour(prefix, sections.last().prefix@) {
        still_neighbours(sections.drop_last(), prefix).push(sections.last())
    } else {
        still_neighbours(sections.drop_last(), prefix)
    }
}

/// Every one of `sections` that is a neighbour of `prefix` is among those
/// that are still neighbours, and those are all neighbours of `prefix` and
/// among `sections`.
pub proof fn lemma_still_neighbours(sections: Seq<SectionModel>, prefix: Seq<bool>)
    ensures
        forall|k: int|
            0 <= k < sections.len() && bits_neighbour(prefix, (#[trigger] sections[k]).prefix@) ==> still_neighbours(
                sections,
                prefix,
            ).contains(sections[k]),
        forall|j: int|
            0 <= j < still_neighbours(sections, prefix).len() ==> bits_neighbour(
                prefix,
                (#[trigger] still_neighbours(sections, prefix)[j]).prefix@,
            ) && sections.contains(still_neighbours(sections, prefix)[j]),
    decreases sections.len(),
{
    if sections.len() > 0 {
        let head = sections.drop_last();
        lemma_still_neighbours(head, prefix);
        let kept_head = still_neighbours(head, prefix);
        let kept = still_neighbours(sections, prefix);
        assert forall|k: int| 0 <= k < sections.len() && bits_neighbour(prefix, (#[trigger] sections[k]).prefix@) implies kept.contains(
            sections[k],
        ) by {
            if k < head.len() {
                let j = choose|j: int| 0 <= j < kept_head.len() && kept_head[j] == head[k];
                assert(kept[j] == sections[k]);
            } else {
                assert(kept[kept.len() - 1] == sections[k]);
            }
        }
        assert forall|j: int| 0 <= j < kept.len() implies bits_neighbour(prefix, (#[trigger] kept[j]).prefix@) && sections.contains(
            kept[j],
        ) by {
            assert(j < kept_head.len() ==> kept[j] == kept_head[j]);
        }
    }
}

/// Two prefixes that are neighbours are not compatible.
pub proof fn lemma_neighbours_are_not_compatible(a: Seq<bool>, b: Seq<bool>)
    requires
        bits_neighbour(a, b),
    ensures
        !bits_compatible(a, b),
        !bits_compatible(b, a),
{
    let i = choose|i: int|
        0 <= i < a.len() && i < b.len() && #[trigger] a[i] != b[i] && forall|j: int|
            0 <= j < a.len() && j < b.len() && j != i ==> #[trigger] a[j] == b[j];
    assert(a[i] != b[i]);
}

/// Among the neighbours with a prefix there is a first one.
proof fn lemma_first_with_prefix(node: NodeModel, prefix: Prefix, at: int)
    requires
        0 <= at < node.neighbours.len(),
        node.neighbours[at].prefix == prefix,
    ensures
        node.knows_neighbour(prefix),
        0 <= node.neighbour_index(prefix) <= at,
        node.neighbours[node.neighbour_index(prefix)].prefix == prefix,
        forall|j: int| 0 <= j < node.neighbour_index(prefix) ==> (#[trigger] node.neighbours[j]).prefix != prefix,
    decreases at,
{
    if exists|j: int| 0 <= j < at && (#[trigger] node.neighbours[j]).prefix == prefix {
        let j = choose|j: int| 0 <= j < at && (#[trigger] node.neighbours[j]).prefix == prefix;
        lemma_first_with_prefix(node, prefix, j);
    } else {
        assert(0 <= at < node.neighbours.len() && node.neighbours[at].prefix == prefix && forall|j: int|
            0 <= j < at ==> (#[trigger] node.neighbours[j]).prefix != prefix);
        let first = node.neighbour_index(prefix);
        assert(first <= at);
    }
}

/// A newer record of a neighbour that the node knows keeps the rules of
/// section membership, if the record has enough elders and they lie in
/// its prefix.
pub proof fn lemma_renewed_neighbour_keeps_rules(node: NodeModel, info: SectionModel, elder_size: usize)
    requires
        node.invariant_holds(elder_size),
        node.is_elder,
        node.knows_neighbour(info.prefix),
        info.elder_set().len() >= elder_size,
        info.elders_match(),
    ensures
        node.with_neighbour(info).invariant_holds(elder_size),
{
    reveal(NodeModel::first_violation);
    let next = node.with_neighbour(info);
    let at = choose|at: int| 0 <= at < node.neighbours.len() && (#[trigger] node.neighbours[at]).prefix == info.prefix;
    lemma_first_with_prefix(node, info.prefix, at);
    assert(next.neighbour_prefixes() =~= node.neighbour_prefixes());
    assert forall|j: int| 0 <= j < next.neighbours.len() implies (#[trigger] next.neighbours[j]).prefix == node.neighbours[j].prefix by {}
    assert(next.no_compatible_neighbour());
    assert(next.neighbours_large_enough(elder_size));
    assert(next.neighbour_elders_match());
    assert(next.all_are_neighbours());
    assert(next.neighbours_cover()) by {
        assert forall|i: int| 0 <= i < next.our_prefix()@.len() implies bits_covered_by(
            #[trigger] next.flipped(i),
            bit_strings(next.neighbour_prefixes()),
        ) by {
            assert(bits_covered_by(node.flipped(i), bit_strings(node.neighbour_prefixes())));
        }
    }
}

/// A newer record of the section of an elder keeps the rules of section
/// membership, if the record has enough elders, or the section has the
/// empty prefix, its elders lie in its prefix, and the node is among them.
pub proof fn lemma_renewed_section_keeps_rules(
    node: NodeModel,
    info: SectionModel,
    neighbours: Seq<SectionModel>,
    elder_size: usize,
)
    requires
        node.invariant_holds(elder_size),
        node.is_elder,
        node.renews_our_section(info),
        info.prefix@.len() == 0 || info.elder_set().len() >= elder_size,
        info.elders_match(),
        info.elder_set().contains(node.name),
    ensures
        node.with_our_section(info, neighbours).invariant_holds(elder_size),
        node.with_our_section(info, neighbours).is_elder,
        node.with_our_section(info, neighbours).neighbours == node.neighbours,
{
    reveal(NodeModel::first_violation);
    let next = node.with_our_section(info, neighbours);
    assert(next.neighbour_prefixes() == node.neighbour_prefixes());
    assert(next.neighbours_cover()) by {
        assert forall|i: int| 0 <= i < next.our_prefix()@.len() implies bits_covered_by(
            #[trigger] next.flipped(i),
            bit_strings(next.neighbour_prefixes()),
        ) by {
            assert(bits_covered_by(node.flipped(i), bit_strings(node.neighbour_prefixes())));
        }
    }
}

/// The split of the section of an elder into its two halves keeps the rules
/// of section membership, if each half has enough elders, they lie in its
/// prefix, and the node is an elder of its half.
pub proof fn lemma_split_keeps_rules(node: NodeModel, zero: SectionModel, one: SectionModel, elder_size: usize)
    requires
        node.invariant_holds(elder_size),
        node.is_elder,
        node.are_our_halves(zero, one),
        zero.elder_set().len() >= elder_size,
        one.elder_set().len() >= elder_size,
        zero.elders_match(),
        one.elders_match(),
        node.our_half(zero, one).elder_set().contains(node.name),
    ensures
        node.after_split(zero, one).invariant_holds(elder_size),
{
    reveal(NodeModel::first_violation);
    let next = node.after_split(zero, one);
    let old_prefix = node.our_prefix()@;
    let n = old_prefix.len() as int;
    let bit = node.name.bit_at(n);
    let ours = node.our_half(zero, one);
    let other = node.other_half(zero, one);
    let prefix = ours.prefix@;
    let kept = still_neighbours(node.neighbours, prefix);
    lemma_still_neighbours(node.neighbours, prefix);
    lemma_pushed_partitions(old_prefix, node.name);
    // The other half differs from ours in the last bit and nowhere else.
    assert(bits_neighbour(prefix, other.prefix@)) by {
        assert(prefix[n] != other.prefix@[n]);
    }
    assert forall|j: int| 0 <= j < next.neighbours.len() implies bits_neighbour(prefix, (#[trigger] next.neighbours[j]).prefix@)
        && next.neighbours[j].elder_set().len() >= elder_size && next.neighbours[j].elders_match() by {
        if j < kept.len() {
            let k = choose|k: int| 0 <= k < node.neighbours.len() && node.neighbours[k] == kept[j];
            assert(node.neighbours[k].elder_set().len() >= elder_size);
        }
    }
    assert(next.no_compatible_neighbour()) by {
        assert forall|j: int| 0 <= j < next.neighbours.len() implies !bits_compatible(
            (#[trigger] next.neighbours[j]).prefix@,
            next.our_prefix()@,
        ) by {
            lemma_neighbours_are_not_compatible(prefix, next.neighbours[j].prefix@);
        }
    }
    assert(next.neighbours_cover()) by {
        let strings = bit_strings(next.neighbour_prefixes());
        assert forall|i: int| 0 <= i < prefix.len() implies bits_covered_by(#[trigger] next.flipped(i), strings) by {
            let flipped = next.flipped(i);
            assert forall|name: XorName| #[trigger] bits_match(flipped, name) implies exists|k: int|
                0 <= k < strings.len() && bits_match(#[trigger] strings[k], name) by {
                if i == n {
                    // The sibling of our half is the other half.
                    let k = next.neighbours.len() - 1;
                    assert(strings[k] == other.prefix@);
                    assert(flipped =~= other.prefix@);
                } else {
                    // A name next to our half in an earlier bit was next to our
                    // section in that bit, and the neighbour that covered it
                    // there is still a neighbour.
                    let old_flipped = node.flipped(i);
                    assert forall|j: int| 0 <= j < old_flipped.len() implies #[trigger] old_flipped[j] == name.bit_at(j) by {
                        assert(flipped[j] == name.bit_at(j));
                    }
                    assert(bits_match(old_flipped, name));
                    let old_strings = bit_strings(node.neighbour_prefixes());
                    let m = choose|m: int| 0 <= m < old_strings.len() && bits_match(#[trigger] old_strings[m], name);
                    let q = node.neighbours[m].prefix@;
                    let d = choose|d: int|
                        0 <= d < old_prefix.len() && d < q.len() && #[trigger] old_prefix[d] != q[d] && forall|j: int|
                            0 <= j < old_prefix.len() && j < q.len() && j != d ==> #[trigger] old_prefix[j] == q[j];
                    assert(flipped[d] == name.bit_at(d));
                    assert(bits_neighbour(prefix, q)) by {
                        assert forall|j: int| 0 <= j < prefix.len() && j < q.len() && j != i implies #[trigger] prefix[j]
                            == q[j] by {
                            assert(flipped[j] == name.bit_at(j));
                        }
                    }
                    let k = choose|k: int| 0 <= k < kept.len() && kept[k] == node.neighbours[m];
                    assert(strings[k] == q);
                }
            }
        }
    }
}

/// The events that tell the application of a change in the node's standing.
pub open spec fn standing_events(was_elder: bool, is_elder: bool) -> Seq<Event> {
    if !was_elder && is_elder {
        seq![Event::Promoted]
    } else if was_elder && !is_elder {
        seq![Event::Demoted]
    } else {
        Seq::empty()
    }
}

/// A node's knowledge of the network.
pub struct Chain {
    elder_size: usize,
    node: NodeView,
}

impl View for Chain {
    type V = NodeModel;

    closed spec fn view(&self) -> NodeModel {
        self.node@
    }
}

/// Returns copies of the records, in their order.
fn duplicate_all(sections: &Vec<EldersInfo>) -> (copies: Vec<EldersInfo>)
    ensures
        section_models(copies@) == section_models(sections@),
        copies@.len() == sections@.len(),
{
    let mut copies: Vec<EldersInfo> = Vec::new();
    let mut k: usize = 0;
    while k < sections.len()
        invariant
            k <= sections@.len(),
            copies@.len() == k,
            forall|j: int| 0 <= j < k ==> (#[trigger] copies@[j])@ == sections@[j]@,
        decreases sections@.len() - k,
    {
        copies.push(sections[k].duplicate());
        k = k + 1;
    }
    copies
}

impl Chain {
    #[verifier::type_invariant]
    spec fn inv(self) -> bool {
        chain_valid(self.node@, self.elder_size)
    }

    /// The number of elders that a section needs.
    pub closed spec fn elder_size_spec(self) -> usize {
        self.elder_size
    }

    /// The chain holds to the rules of section membership. Every chain does.
    pub open spec fn valid(self) -> bool {
        chain_valid(self@, self.elder_size_spec())
    }

    /// Puts a candidate for the node's knowledge to the rules.
    fn examine(elder_size: usize, node: NodeView) -> (r: Result<Chain, NodeViolation>)
        requires
            node@.is_elder == node@.our_section.elder_set().contains(node@.name),
        ensures
            match node@.first_violation(elder_size) {
                None => r matches Ok(chain) && chain@ == node@ && chain.elder_size_spec() == elder_size && chain.valid(),
                Some(v) => r == Err::<Chain, NodeViolation>(v),
            },
    {
        match verify_section_invariants_for_node(&node, elder_size) {
            Ok(()) => Ok(Chain { elder_size, node }),
            Err(v) => Err(v),
        }
    }

    /// Makes the chain of a node called `name` that knows its own section
    /// and the given neighbours, where that knowledge obeys the rules of
    /// section membership for sections of `elder_size` elders. Whether the
    /// node is an elder is read from the record of its section.
    pub fn new(elder_size: usize, name: XorName, our_section: EldersInfo, neighbours: Vec<EldersInfo>) -> (r: Result<
        Chain,
        NodeViolation,
    >)
        ensures
            match (NodeModel {
                name,
                is_elder: our_section@.elder_set().contains(name),
                our_section: our_section@,
                neighbours: section_models(neighbours@),
            }).first_violation(elder_size) {
                None => r matches Ok(chain) && chain@ == (NodeModel {
                    name,
                    is_elder: our_section@.elder_set().contains(name),
                    our_section: our_section@,
                    neighbours: section_models(neighbours@),
                }) && chain.elder_size_spec() == elder_size && chain.valid(),
                Some(v) => r == Err::<Chain, NodeViolation>(v),
            },
    {
        let is_elder = our_section.has_elder(&name);
        Chain::examine(elder_size, NodeView { name, is_elder, our_section, neighbours })
    }

    /// Makes the chain of the first node of a network: the only elder of the
    /// section with the empty prefix, at version 0, without neighbours.
    pub fn genesis(elder_size: usize, node: P2pNode) -> (chain: Chain)
        ensures
            chain.valid(),
            chain.elder_size_spec() == elder_size,
            chain@.name == node.public_id.name,
            chain@.is_elder,
            chain@.our_section.prefix@.len() == 0,
            chain@.our_section.version == 0,
            chain@.our_section.elder_set() == set![node.public_id.name],
            chain@.neighbours.len() == 0,
    {
        let mut members: Vec<P2pNode> = Vec::new();
        members.push(node);
        let name = node.public_id.name;
        let our_section = EldersInfo::new(members, Prefix::default(), 0);
        proof {
            assert(crate::chain::names_of(seq![node]) =~= seq![name]);
            assert(seq![name].to_set() =~= set![name]) by {
                assert(seq![name][0] == name);
            }
        }
        let view = NodeView { name, is_elder: true, our_section, neighbours: Vec::new() };
        proof {
            lemma_genesis_breaks_no_rule(view@, elder_size);
        }
        Chain { elder_size, node: view }
    }

    /// Returns what the node knows, for the checks of the invariants.
    pub fn node(&self) -> (node: &NodeView)
        ensures
            node@ == self@,
            node@.invariant_holds(self.elder_size_spec()),
            self.valid(),
    {
        proof {
            use_type_invariant(self);
        }
        &self.node
    }

    /// Returns the name of the node.
    pub fn name(&self) -> (name: XorName)
        ensures
            name == self@.name,
    {
        self.node.name
    }

    /// Returns the number of elders that a section needs.
    pub fn elder_size(&self) -> (n: usize)
        ensures
            n == self.elder_size_spec(),
    {
        self.elder_size
    }

    /// Returns whether the node is an elder of its section: whether it is
    /// among the elders in the record of its section.
    pub fn is_elder(&self) -> (b: bool)
        ensures
            b == self@.is_elder,
            b == self@.our_section.elder_set().contains(self@.name),
    {
        proof {
            use_type_invariant(self);
        }
        self.node.is_elder
    }

    /// Returns the prefix of the node's section.
    pub fn our_prefix(&self) -> (prefix: Prefix)
        ensures
            prefix == self@.our_section.prefix,
            prefix.matches_spec(self@.name),
    {
        proof {
            use_type_invariant(self);
            reveal(NodeModel::first_violation);
        }
        self.node.our_section.prefix()
    }

    /// Returns the record of the node's section.
    pub fn our_info(&self) -> (info: &EldersInfo)
        ensures
            info@ == self@.our_section,
    {
        &self.node.our_section
    }

    /// Returns the records of the neighbouring sections.
    pub fn neighbour_infos(&self) -> (infos: &Vec<EldersInfo>)
        ensures
            section_models(infos@) == self@.neighbours,
    {
        &self.node.neighbours
    }

    /// Returns the prefixes of the neighbouring sections.
    pub fn neighbour_prefixes(&self) -> (prefixes: Vec<Prefix>)
        ensures
            prefixes@ == self@.neighbour_prefixes(),
    {
        self.node.neighbour_prefix_list()
    }

    /// Returns whether the node may give `src` as the source of a message
    /// that it sends: itself, or its section if it is an elder of it.
    pub fn in_src_location(&self, src: &SrcLocation) -> (b: bool)
        ensures
            b == self@.in_src_location(*src),
    {
        match src {
            SrcLocation::Node(name) => *name == self.node.name,
            SrcLocation::Section(prefix) => self.node.is_elder && *prefix == self.node.our_section.prefix(),
        }
    }

    /// Returns the elders of the section with this prefix, if the node knows
    /// that section: its own, or the first neighbour with the prefix.
    pub fn section_elders(&self, prefix: &Prefix) -> (elders: Option<&Vec<P2pNode>>)
        ensures
            match elders {
                Some(members) => if self@.our_section.prefix == *prefix {
                    members@ == self@.our_section.members
                } else {
                    self@.knows_neighbour(*prefix) && members@ == self@.neighbours[self@.neighbour_index(*prefix)].members
                },
                None => self@.our_section.prefix != *prefix && !self@.knows_neighbour(*prefix),
            },
    {
        if self.node.our_section.prefix() == *prefix {
            return Some(self.node.our_section.members());
        }
        match self.find_neighbour(*prefix) {
            Some(k) => {
                Some(self.node.neighbours[k].members())
            },
            None => None,
        }
    }

    /// Returns the record of the section with this prefix, if the node
    /// knows that section: its own, or the first neighbour with the prefix.
    pub fn section_info(&self, prefix: &Prefix) -> (info: Option<&EldersInfo>)
        ensures
            match info {
                Some(record) => if self@.our_section.prefix == *prefix {
                    record@ == self@.our_section
                } else {
                    self@.knows_neighbour(*prefix) && record@ == self@.neighbours[self@.neighbour_index(*prefix)]
                },
                None => self@.our_section.prefix != *prefix && !self@.knows_neighbour(*prefix),
            },
    {
        if self.node.our_section.prefix() == *prefix {
            return Some(&self.node.our_section);
        }
        match self.find_neighbour(*prefix) {
            Some(k) => {
                Some(&self.node.neighbours[k])
            },
            None => None,
        }
    }

    /// Checks what the node knows against the rules of section membership.
    /// The answer is that of `verify_section_invariants_for_node` on the
    /// node's knowledge with the chain's number of elders; as a chain holds
    /// to the rules, no rule is found broken.
    pub fn check(&self) -> (r: Result<(), NodeViolation>)
        ensures
            r == (match self@.first_violation(self.elder_size_spec()) {
                None => Ok::<(), NodeViolation>(()),
                Some(v) => Err::<(), NodeViolation>(v),
            }),
            r is Ok,
            self@.invariant_holds(self.elder_size_spec()),
    {
        proof {
            use_type_invariant(self);
        }
        verify_section_invariants_for_node(&self.node, self.elder_size)
    }

    /// Returns the position of the first neighbour with this prefix.
    fn find_neighbour(&self, prefix: Prefix) -> (found: Option<usize>)
        ensures
            match found {
                Some(k) => k < self@.neighbours.len() && self@.knows_neighbour(prefix) && k == self@.neighbour_index(prefix),
                None => !self@.knows_neighbour(prefix),
            },
            self@.neighbours.len() == self.node.neighbours@.len(),
    {
        let mut k: usize = 0;
        while k < self.node.neighbours.len()
            invariant
                k <= self.node.neighbours@.len(),
                self@.neighbours.len() == self.node.neighbours@.len(),
                forall|j: int| 0 <= j < k ==> (#[trigger] self@.neighbours[j]).prefix != prefix,
            decreases self.node.neighbours@.len() - k,
        {
            if self.node.neighbours[k].prefix() == prefix {
                proof {
                    assert(self@.neighbours[k as int] == self.node.neighbours@[k as int]@);
                    let c = self@.neighbour_index(prefix);
                    assert(0 <= c < self@.neighbours.len() && self@.neighbours[c].prefix == prefix && forall|j: int|
                        0 <= j < c ==> (#[trigger] self@.neighbours[j]).prefix != prefix);
                }
                return Some(k);
            }
            k = k + 1;
        }
        None
    }

    /// Takes in the record of a neighbouring section. An adult keeps no
    /// neighbours, and a record that is no newer than the one held of the
    /// same section is stale: both are ignored, with the answer `false`.
    /// Any other record takes the place of the one with its prefix, or is
    /// added, and the answer is `true`, unless a rule of section membership
    /// would then be broken: that rule is the error, and the chain stays as
    /// it was.
    pub fn update_neighbour(&mut self, info: EldersInfo) -> (r: Result<bool, NodeViolation>)
        ensures
            final(self).valid(),
            final(self).elder_size_spec() == old(self).elder_size_spec(),
            final(self)@ == old(self)@.offered_neighbour(info@, old(self).elder_size_spec()),
            if !old(self)@.is_elder || old(self)@.is_stale(info@) {
                r == Ok::<bool, NodeViolation>(false) && final(self)@ == old(self)@
            } else {
                match old(self)@.with_neighbour(info@).first_violation(old(self).elder_size_spec()) {
                    None => r == Ok::<bool, NodeViolation>(true) && final(self)@ == old(self)@.with_neighbour(info@),
                    Some(v) => r == Err::<bool, NodeViolation>(v) && final(self)@ == old(self)@,
                }
            },
    {
        proof {
            use_type_invariant(&*self);
        }
        if !self.node.is_elder {
            return Ok(false);
        }
        let found = self.find_neighbour(info.prefix());
        let mut neighbours = duplicate_all(&self.node.neighbours);
        match found {
            Some(k) => {
                if info.version() <= self.node.neighbours[k].version() {
                    return Ok(false);
                }
                neighbours[k] = info;
            },
            None => {
                neighbours.push(info);
            },
        }
        let candidate = NodeView {
            name: self.node.name,
            is_elder: self.node.is_elder,
            our_section: self.node.our_section.duplicate(),
            neighbours,
        };
        proof {
            let expected = old(self)@.with_neighbour(info@).neighbours;
            assert(candidate@.neighbours =~= expected);
        }
        match verify_section_invariants_for_node(&candidate, self.elder_size) {
            Ok(()) => {
                self.node = candidate;
                Ok(true)
            },
            Err(v) => Err(v),
        }
    }

    /// Takes in a record of the node's own section. A record of another
    /// section, or one that is no newer than the one held, is ignored, with
    /// the answer `false`. Otherwise the record takes the place of the one
    /// held, and whether the node is an elder is read from it: a node that
    /// stays an elder keeps its neighbours, a node that becomes one starts
    /// with `neighbours`, and a node that is none forgets its neighbours.
    /// The application learns of a promotion or a demotion, and the answer
    /// is `true`. Where a rule of section membership would be broken, that
    /// rule is the error, and the chain and the outbox stay as they were.
    pub fn update_our_section(&mut self, info: EldersInfo, neighbours: Vec<EldersInfo>, outbox: &mut Outbox) -> (r: Result<
        bool,
        NodeViolation,
    >)
        ensures
            final(self).valid(),
            final(self).elder_size_spec() == old(self).elder_size_spec(),
            final(outbox).commands@ == old(outbox).commands@,
            final(self)@ == old(self)@.offered_our_section(
                info@,
                section_models(neighbours@),
                old(self).elder_size_spec(),
            ),
            final(outbox).events@ == old(outbox).events@ + standing_events(old(self)@.is_elder, final(self)@.is_elder),
            if !old(self)@.renews_our_section(info@) {
                r == Ok::<bool, NodeViolation>(false) && final(self)@ == old(self)@ && final(outbox).events@ == old(outbox).events@
            } else {
                match old(self)@.with_our_section(info@, section_models(neighbours@)).first_violation(
                    old(self).elder_size_spec(),
                ) {
                    None => r == Ok::<bool, NodeViolation>(true) && final(self)@ == old(self)@.with_our_section(
                        info@,
                        section_models(neighbours@),
                    ) && final(outbox).events@ == old(outbox).events@ + standing_events(
                        old(self)@.is_elder,
                        final(self)@.is_elder,
                    ),
                    Some(v) => r == Err::<bool, NodeViolation>(v) && final(self)@ == old(self)@ && final(outbox).events@
                        == old(outbox).events@,
                }
            },
    {
        proof {
            use_type_invariant(&*self);
        }
        if !(info.prefix() == self.node.our_section.prefix() && info.version() > self.node.our_section.version()) {
            return Ok(false);
        }
        let was_elder = self.node.is_elder;
        let is_elder = info.has_elder(&self.node.name);
        let kept = if !is_elder {
            Vec::new()
        } else if was_elder {
            duplicate_all(&self.node.neighbours)
        } else {
            neighbours
        };
        let candidate = NodeView { name: self.node.name, is_elder, our_section: info, neighbours: kept };
        assert(candidate@.neighbours =~= old(self)@.with_our_section(info@, section_models(neighbours@)).neighbours);
        match verify_section_invariants_for_node(&candidate, self.elder_size) {
            Ok(()) => {
                self.node = candidate;
                announce_standing(was_elder, is_elder, outbox);
                Ok(true)
            },
            Err(v) => Err(v),
        }
    }

    /// Applies the split of the node's section into its two halves, of
    /// which `zero` and `one` are the records; `zero` is that of the half
    /// whose next bit is 0. Neither record may be older than the one held
    /// of the section. The node goes with the half that its name belongs
    /// to. As an elder of that half it knows the other half and, if it was
    /// an elder before, those of its neighbours that are still neighbours
    /// of its half; otherwise it knows no neighbour. The application learns
    /// of the split, with the prefix of the node's half, and then of a
    /// promotion or a demotion. On an error the chain and the outbox stay
    /// as they were.
    pub fn split(&mut self, zero: EldersInfo, one: EldersInfo, outbox: &mut Outbox) -> (r: Result<(), SplitError>)
        ensures
            final(self).valid(),
            final(self).elder_size_spec() == old(self).elder_size_spec(),
            final(outbox).commands@ == old(outbox).commands@,
            r is Err ==> final(self)@ == old(self)@ && final(outbox).events@ == old(outbox).events@,
            if !old(self)@.are_our_halves(zero@, one@) {
                r == Err::<(), SplitError>(SplitError::NotOurHalves)
            } else if zero@.version < old(self)@.our_section.version || one@.version < old(self)@.our_section.version {
                r == Err::<(), SplitError>(SplitError::StaleVersion)
            } else {
                match old(self)@.after_split(zero@, one@).first_violation(old(self).elder_size_spec()) {
                    Some(v) => r == Err::<(), SplitError>(SplitError::Violation(v)),
                    None => r == Ok::<(), SplitError>(()) && final(self)@ == old(self)@.after_split(zero@, one@) && final(outbox).events@ == old(outbox).events@.push(Event::SectionSplit(final(self)@.our_section.prefix))
                        + standing_events(old(self)@.is_elder, final(self)@.is_elder),
                }
            },
    {
        proof {
            use_type_invariant(&*self);
        }
        let ours = self.node.our_section.prefix();
        let n = ours.bit_count();
        if n >= 256 || !zero.prefix().same_bits(&ours.pushed(false)) || !one.prefix().same_bits(&ours.pushed(true)) {
            return Err(SplitError::NotOurHalves);
        }
        let version = self.node.our_section.version();
        if zero.version() < version || one.version() < version {
            return Err(SplitError::StaleVersion);
        }
        let (our_half, other_half) = if self.node.name.bit(n) { (one, zero) } else { (zero, one) };
        let was_elder = self.node.is_elder;
        let is_elder = our_half.has_elder(&self.node.name);
        let new_prefix = our_half.prefix();
        let mut kept: Vec<EldersInfo> = Vec::new();
        if is_elder {
            if was_elder {
                let mut k: usize = 0;
                while k < self.node.neighbours.len()
                    invariant
                        k <= self.node.neighbours@.len(),
                        section_models(kept@) == still_neighbours(section_models(self.node.neighbours@).take(k as int), new_prefix@),
                    decreases self.node.neighbours@.len() - k,
                {
                    proof {
                        let all = section_models(self.node.neighbours@);
                        assert(all.take(k + 1).drop_last() =~= all.take(k as int));
                    }
                    if new_prefix.is_neighbour(&self.node.neighbours[k].prefix()) {
                        kept.push(self.node.neighbours[k].duplicate());
                    }
                    k = k + 1;
                }
                proof {
                    let all = section_models(self.node.neighbours@);
                    assert(all.take(all.len() as int) =~= all);
                }
            }
            kept.push(other_half);
        }
        let candidate = NodeView { name: self.node.name, is_elder, our_section: our_half, neighbours: kept };
        assert(candidate@.neighbours =~= old(self)@.after_split(zero@, one@).neighbours);
        match verify_section_invariants_for_node(&candidate, self.elder_size) {
            Ok(()) => {
                self.node = candidate;
                outbox.send_event(Event::SectionSplit(new_prefix));
                announce_standing(was_elder, is_elder, outbox);
                assert(outbox.events@ =~= old(outbox).events@.push(Event::SectionSplit(new_prefix)) + standing_events(
                    was_elder,
                    is_elder,
                ));
                Ok(())
            },
            Err(v) => Err(SplitError::Violation(v)),
        }
    }
}

/// Tells the application of a promotion or a demotion.
fn announce_standing(was_elder: bool, is_elder: bool, outbox: &mut Outbox)
    ensures
        final(outbox).events@ == old(outbox).events@ + standing_events(was_elder, is_elder),
        final(outbox).commands@ == old(outbox).commands@,
{
    if !was_elder && is_elder {
        outbox.send_event(Event::Promoted);
    } else if was_elder && !is_elder {
        outbox.send_event(Event::Demoted);
    }
}

} // verus!
