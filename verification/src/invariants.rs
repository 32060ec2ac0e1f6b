//! The invariants of section membership, checked on views of the nodes.
//!
//! A `NodeView` holds what one node knows at one moment: its name, whether
//! it is an elder, its own section and the neighbouring sections. Its model
//! is a `NodeModel`, over which the rules are stated. The checks read views
//! and change nothing. A check either passes or names the first rule that is
//! broken.

use vstd::prelude::*;
use crate::chain::{EldersInfo, SectionModel};
use crate::prefix::{bit_strings, bits_compatible, bits_covered_by, bits_match, bits_neighbour, Prefix};
use crate::xor_name::XorName;

verus! {

/// What one node knows at one moment.
pub struct NodeView {
    /// The name of the node.
    pub name: XorName,
    /// Whether the node is an elder of its section.
    pub is_elder: bool,
    /// The node's own section.
    pub our_section: EldersInfo,
    /// The neighbouring sections that the node knows. An adult knows none.
    pub neighbours: Vec<EldersInfo>,
}

/// A rule of section membership that the view of a node breaks.
#[derive(Clone, Copy, Debug, PartialEq, Eq, Structural)]
pub enum NodeViolation {
    /// The prefix of the node's section does not match the node's name.
    PrefixMismatch,
    /// The node's section has a prefix and fewer elders than a section needs.
    SectionTooSmall,
    /// An elder of the node's section has a name outside its prefix.
    ElderOutsidePrefix,
    /// The node is an adult and knows a neighbouring section.
    AdultWithNeighbours,
    /// The prefix of a neighbouring section is compatible with that of the node's section.
    CompatibleNeighbour,
    /// A neighbouring section has fewer elders than a section needs.
    NeighbourTooSmall,
    /// An elder of a neighbouring section has a name outside its prefix.
    NeighbourElderOutsidePrefix,
    /// A section that the node holds as a neighbour is none.
    NotNeighbour,
    /// The neighbouring sections leave a gap next to the node's section.
    NeighbourNotCovered,
}

/// The model of a `NodeView`.
pub struct NodeModel {
    /// The name of the node.
    pub name: XorName,
    /// Whether the node is an elder of its section.
    pub is_elder: bool,
    /// The node's own section.
    pub our_section: SectionModel,
    /// The neighbouring sections that the node knows.
    pub neighbours: Seq<SectionModel>,
}

/// The models of a sequence of records.
pub open spec fn section_models(sections: Seq<EldersInfo>) -> Seq<SectionModel> {
    Seq::new(sections.len(), |k: int| sections[k]@)
}

/// The models of a sequence of views.
pub open spec fn node_models(nodes: Seq<NodeView>) -> Seq<NodeModel> {
    Seq::new(nodes.len(), |i: int| nodes[i]@)
}

impl View for NodeView {
    type V = NodeModel;

    open spec fn view(&self) -> NodeModel {
        NodeModel {
            name: self.name,
            is_elder: self.is_elder,
            our_section: self.our_section@,
            neighbours: section_models(self.neighbours@),
        }
    }
}

impl NodeModel {
    /// The prefix of the node's section.
    pub open spec fn our_prefix(self) -> Prefix {
        self.our_section.prefix
    }

    /// The prefixes of the neighbouring sections.
    pub open spec fn neighbour_prefixes(self) -> Seq<Prefix> {
        Seq::new(self.neighbours.len(), |k: int| self.neighbours[k].prefix)
    }

    /// The node's section is the empty prefix or has enough elders.
    pub open spec fn section_large_enough(self, elder_size: usize) -> bool {
        self.our_prefix()@.len() == 0 || self.our_section.elder_set().len() >= elder_size
    }

    /// No neighbouring section has a prefix compatible with that of the node's section.
    pub open spec fn no_compatible_neighbour(self) -> bool {
        forall|k: int|
            0 <= k < self.neighbours.len() ==> !bits_compatible(
                (#[trigger] self.neighbours[k]).prefix@,
                self.our_prefix()@,
            )
    }

    /// Every neighbouring section has enough elders.
    pub open spec fn neighbours_large_enough(self, elder_size: usize) -> bool {
        forall|k: int| 0 <= k < self.neighbours.len() ==> (#[trigger] self.neighbours[k]).elder_set().len() >= elder_size
    }

    /// The elders of every neighbouring section have names in its prefix.
    pub open spec fn neighbour_elders_match(self) -> bool {
        forall|k: int| 0 <= k < self.neighbours.len() ==> (#[trigger] self.neighbours[k]).elders_match()
    }

    /// Every neighbouring section differs from the node's section in exactly
    /// one bit of the shorter of the two prefixes.
    pub open spec fn all_are_neighbours(self) -> bool {
        forall|k: int|
            0 <= k < self.neighbours.len() ==> bits_neighbour(
                self.our_prefix()@,
                (#[trigger] self.neighbours[k]).prefix@,
            )
    }

    /// The prefix of the node's section with bit `i` inverted.
    pub open spec fn flipped(self, i: int) -> Seq<bool> {
        self.our_prefix()@.update(i, !self.our_prefix()@[i])
    }

    /// For every bit of the prefix of the node's section, the neighbouring
    /// sections cover the prefix with that bit inverted.
    pub open spec fn neighbours_cover(self) -> bool {
        forall|i: int|
            0 <= i < self.our_prefix()@.len() ==> bits_covered_by(
                #[trigger] self.flipped(i),
                bit_strings(self.neighbour_prefixes()),
            )
    }

    /// The first rule that the view breaks, if it breaks one. An adult is
    /// held to the rules of its own section and to knowing no neighbour; an
    /// elder to all the rules.
    #[verifier::opaque]
    pub open spec fn first_violation(self, elder_size: usize) -> Option<NodeViolation> {
        if !self.our_prefix().matches_spec(self.name) {
            Some(NodeViolation::PrefixMismatch)
        } else if !self.section_large_enough(elder_size) {
            Some(NodeViolation::SectionTooSmall)
        } else if !self.our_section.elders_match() {
            Some(NodeViolation::ElderOutsidePrefix)
        } else if !self.is_elder {
            if self.neighbours.len() > 0 {
                Some(NodeViolation::AdultWithNeighbours)
            } else {
                None
            }
        } else if !self.no_compatible_neighbour() {
            Some(NodeViolation::CompatibleNeighbour)
        } else if !self.neighbours_large_enough(elder_size) {
            Some(NodeViolation::NeighbourTooSmall)
        } else if !self.neighbour_elders_match() {
            Some(NodeViolation::NeighbourElderOutsidePrefix)
        } else if !self.all_are_neighbours() {
            Some(NodeViolation::NotNeighbour)
        } else if !self.neighbours_cover() {
            Some(NodeViolation::NeighbourNotCovered)
        } else {
            None
        }
    }

    /// The view breaks no rule.
    pub open spec fn invariant_holds(self, elder_size: usize) -> bool {
        self.first_violation(elder_size) is None
    }
}

impl NodeView {
    fn check_no_compatible_neighbour(&self) -> (b: bool)
        ensures
            b == self@.no_compatible_neighbour(),
    {
        let ours = self.our_section.prefix();
        let mut k: usize = 0;
        while k < self.neighbours.len()
            invariant
                k <= self.neighbours@.len(),
                ours == self@.our_prefix(),
                forall|j: int|
                    0 <= j < k ==> !bits_compatible((#[trigger] self.neighbours@[j])@.prefix@, self@.our_prefix()@),
            decreases self.neighbours@.len() - k,
        {
            if self.neighbours[k].prefix().is_compatible(&ours) {
                assert(self@.neighbours[k as int] == self.neighbours@[k as int]@);
                return false;
            }
            k = k + 1;
        }
        true
    }

    fn check_neighbours_large_enough(&self, elder_size: usize) -> (b: bool)
        ensures
            b == self@.neighbours_large_enough(elder_size),
    {
        let mut k: usize = 0;
        while k < self.neighbours.len()
            invariant
                k <= self.neighbours@.len(),
                forall|j: int| 0 <= j < k ==> (#[trigger] self.neighbours@[j])@.elder_set().len() >= elder_size,
            decreases self.neighbours@.len() - k,
        {
            if self.neighbours[k].elder_count() < elder_size {
                assert(self@.neighbours[k as int] == self.neighbours@[k as int]@);
                return false;
            }
            k = k + 1;
        }
        true
    }

    fn check_neighbour_elders_match(&self) -> (b: bool)
        ensures
            b == self@.neighbour_elders_match(),
    {
        let mut k: usize = 0;
        while k < self.neighbours.len()
            invariant
                k <= self.neighbours@.len(),
                forall|j: int| 0 <= j < k ==> (#[trigger] self.neighbours@[j])@.elders_match(),
            decreases self.neighbours@.len() - k,
        {
            if !self.neighbours[k].all_elders_match() {
                assert(self@.neighbours[k as int] == self.neighbours@[k as int]@);
                return false;
            }
            k = k + 1;
        }
        true
    }

    fn check_all_are_neighbours(&self) -> (b: bool)
        ensures
            b == self@.all_are_neighbours(),
    {
        let ours = self.our_section.prefix();
        let mut k: usize = 0;
        while k < self.neighbours.len()
            invariant
                k <= self.neighbours@.len(),
                ours == self@.our_prefix(),
                forall|j: int|
                    0 <= j < k ==> bits_neighbour(self@.our_prefix()@, (#[trigger] self.neighbours@[j])@.prefix@),
            decreases self.neighbours@.len() - k,
        {
            if !ours.is_neighbour(&self.neighbours[k].prefix()) {
                assert(self@.neighbours[k as int] == self.neighbours@[k as int]@);
                return false;
            }
            k = k + 1;
        }
        true
    }

    /// Returns the prefixes of the neighbouring sections.
    pub fn neighbour_prefix_list(&self) -> (prefixes: Vec<Prefix>)
        ensures
            prefixes@ == self@.neighbour_prefixes(),
    {
        let mut prefixes: Vec<Prefix> = Vec::new();
        let mut k: usize = 0;
        while k < self.neighbours.len()
            invariant
                k <= self.neighbours@.len(),
                prefixes@.len() == k,
                forall|j: int| 0 <= j < k ==> prefixes@[j] == (#[trigger] self.neighbours@[j])@.prefix,
            decreases self.neighbours@.len() - k,
        {
            prefixes.push(self.neighbours[k].prefix());
            k = k + 1;
        }
        prefixes
    }

    fn check_neighbours_cover(&self) -> (b: bool)
        ensures
            b == self@.neighbours_cover(),
    {
        let ours = self.our_section.prefix();
        let prefixes = self.neighbour_prefix_list();
        let n = ours.bit_count();
        let mut i: usize = 0;
        while i < n
            invariant
                i <= n,
                n == self@.our_prefix()@.len(),
                ours == self@.our_prefix(),
                prefixes@ == self@.neighbour_prefixes(),
                forall|j: int| 0 <= j < i ==> bits_covered_by(#[trigger] self@.flipped(j), bit_strings(self@.neighbour_prefixes())),
            decreases n - i,
        {
            let flipped = ours.with_flipped_bit(i);
            assert(flipped@ == self@.flipped(i as int));
            if !flipped.is_covered_by(&prefixes) {
                return false;
            }
            i = i + 1;
        }
        true
    }
}

/// Checks the view of one node against the rules of section membership:
/// the node's name lies in its section's prefix; the section has enough
/// elders, unless its prefix is empty; its elders lie in its prefix; an
/// adult knows no neighbour; and for an elder, no neighbour's prefix is
/// compatible with its own, every neighbour has enough elders and they lie
/// in its prefix, every neighbour is one, and the neighbours cover its
/// prefix with any one bit inverted. The error is the first rule, in this
/// order, that the view breaks.
pub fn verify_section_invariants_for_node(node: &NodeView, elder_size: usize) -> (r: Result<(), NodeViolation>)
    ensures
        r == (match node@.first_violation(elder_size) {
            None => Ok::<(), NodeViolation>(()),
            Some(v) => Err::<(), NodeViolation>(v),
        }),
        r is Ok == node@.invariant_holds(elder_size),
{
    reveal(NodeModel::first_violation);
    let ours = node.our_section.prefix();
    if !ours.matches(&node.name) {
        return Err(NodeViolation::PrefixMismatch);
    }
    if !ours.is_empty() && node.our_section.elder_count() < elder_size {
        return Err(NodeViolation::SectionTooSmall);
    }
    if !node.our_section.all_elders_match() {
        return Err(NodeViolation::ElderOutsidePrefix);
    }
    if !node.is_elder {
        if node.neighbours.len() > 0 {
            return Err(NodeViolation::AdultWithNeighbours);
        }
        return Ok(());
    }
    if !node.check_no_compatible_neighbour() {
        return Err(NodeViolation::CompatibleNeighbour);
    }
    if !node.check_neighbours_large_enough(elder_size) {
        return Err(NodeViolation::NeighbourTooSmall);
    }
    if !node.check_neighbour_elders_match() {
        return Err(NodeViolation::NeighbourElderOutsidePrefix);
    }
    if !node.check_all_are_neighbours() {
        return Err(NodeViolation::NotNeighbour);
    }
    if !node.check_neighbours_cover() {
        return Err(NodeViolation::NeighbourNotCovered);
    }
    Ok(())
}

/// Checks the view of every node. The error names the first node whose view
/// breaks a rule, by its position, and the first rule it breaks.
pub fn verify_section_invariants_for_nodes(nodes: &Vec<NodeView>, elder_size: usize) -> (r: Result<(), (usize, NodeViolation)>)
    ensures
        match r {
            Ok(()) => forall|i: int| 0 <= i < nodes@.len() ==> (#[trigger] nodes@[i])@.invariant_holds(elder_size),
            Err((at, v)) => at < nodes@.len() && nodes@[at as int]@.first_violation(elder_size) == Some(v) && forall|i: int|
                0 <= i < at ==> (#[trigger] nodes@[i])@.invariant_holds(elder_size),
        },
{
    let mut i: usize = 0;
    while i < nodes.len()
        invariant
            i <= nodes@.len(),
            forall|j: int| 0 <= j < i ==> (#[trigger] nodes@[j])@.invariant_holds(elder_size),
        decreases nodes@.len() - i,
    {
        match verify_section_invariants_for_node(&nodes[i], elder_size) {
            Ok(()) => {},
            Err(v) => {
                return Err((i, v));
            },
        }
        i = i + 1;
    }
    Ok(())
}

/// A rule that the views of the nodes break when they are held together.
#[derive(Clone, Copy, Debug, PartialEq, Eq, Structural)]
pub enum NetworkViolation {
    /// Two elders show different versions or different elders of one section.
    Disagreement,
    /// Two known sections have different prefixes that are compatible.
    Overlap,
    /// An elder of a known section has a name outside its prefix.
    ElderOutsidePrefix,
    /// Some name belongs to no known section.
    NotCovered,
}

/// Section `k` in the view of a node: its own section for 0, and then its neighbours.
pub open spec fn section_of(node: NodeModel, k: int) -> SectionModel {
    if k == 0 {
        node.our_section
    } else {
        node.neighbours[k - 1]
    }
}

/// Node `i` is an elder and its view has a section `k`. The known sections
/// are those in the views of the elders.
pub open spec fn is_known(nodes: Seq<NodeModel>, i: int, k: int) -> bool {
    0 <= i < nodes.len() && nodes[i].is_elder && 0 <= k <= nodes[i].neighbours.len()
}

/// The prefix of section `k` in the view of node `i`.
pub open spec fn known_prefix(nodes: Seq<NodeModel>, i: int, k: int) -> Prefix {
    section_of(nodes[i], k).prefix
}

/// Wherever two elders know a section with the same prefix, they show the
/// same version and the same elders of it.
pub open spec fn sections_agree(nodes: Seq<NodeModel>) -> bool {
    forall|i: int, k: int, j: int, l: int|
        #[trigger] is_known(nodes, i, k) && #[trigger] is_known(nodes, j, l) && known_prefix(nodes, i, k) == known_prefix(
            nodes,
            j,
            l,
        ) ==> section_of(nodes[i], k).agrees_with(section_of(nodes[j], l))
}

/// Two known sections with different prefixes share no name.
pub open spec fn sections_disjoint(nodes: Seq<NodeModel>) -> bool {
    forall|i: int, k: int, j: int, l: int|
        #[trigger] is_known(nodes, i, k) && #[trigger] is_known(nodes, j, l) && known_prefix(nodes, i, k) != known_prefix(
            nodes,
            j,
            l,
        ) ==> !known_prefix(nodes, i, k).is_compatible_spec(known_prefix(nodes, j, l))
}

/// The elders of every known section have names in its prefix.
pub open spec fn known_elders_match(nodes: Seq<NodeModel>) -> bool {
    forall|i: int, k: int| #[trigger] is_known(nodes, i, k) ==> section_of(nodes[i], k).elders_match()
}

/// The name belongs to a known section.
pub open spec fn has_section(nodes: Seq<NodeModel>, name: XorName) -> bool {
    exists|i: int, k: int| #[trigger] is_known(nodes, i, k) && known_prefix(nodes, i, k).matches_spec(name)
}

/// Every name belongs to a known section.
pub open spec fn sections_cover(nodes: Seq<NodeModel>) -> bool {
    forall|name: XorName| #[trigger] has_section(nodes, name)
}

/// The first rule that the views break together, if they break one.
pub open spec fn network_violation(nodes: Seq<NodeModel>) -> Option<NetworkViolation> {
    if !sections_agree(nodes) {
        Some(NetworkViolation::Disagreement)
    } else if !sections_disjoint(nodes) {
        Some(NetworkViolation::Overlap)
    } else if !known_elders_match(nodes) {
        Some(NetworkViolation::ElderOutsidePrefix)
    } else if !sections_cover(nodes) {
        Some(NetworkViolation::NotCovered)
    } else {
        None
    }
}

/// The place `(i, k)` is listed in `known`.
spec fn lists(known: Seq<(usize, usize)>, i: int, k: int) -> bool {
    exists|m: int| 0 <= m < known.len() && (#[trigger] known[m]).0 == i && known[m].1 == k
}

/// Every place of `known` is that of a known section, and every known section is listed.
spec fn lists_all(nodes: Seq<NodeModel>, known: Seq<(usize, usize)>) -> bool {
    &&& forall|m: int| 0 <= m < known.len() ==> is_known(nodes, (#[trigger] known[m]).0 as int, known[m].1 as int)
    &&& forall|i: int, k: int| #[trigger] is_known(nodes, i, k) ==> lists(known, i, k)
}

/// Returns the places of the known sections: each a node and a section in its view.
fn known_sections(nodes: &Vec<NodeView>) -> (known: Vec<(usize, usize)>)
    ensures
        lists_all(node_models(nodes@), known@),
{
    let mut known: Vec<(usize, usize)> = Vec::new();
    let mut i: usize = 0;
    while i < nodes.len()
        invariant
            i <= nodes@.len(),
            forall|m: int| 0 <= m < known@.len() ==> is_known(node_models(nodes@), (#[trigger] known@[m]).0 as int, known@[m].1 as int),
            forall|a: int, k: int| #[trigger] is_known(node_models(nodes@), a, k) && a < i ==> lists(known@, a, k),
        decreases nodes@.len() - i,
    {
        if nodes[i].is_elder {
            let count = nodes[i].neighbours.len();
            let ghost start = known@;
            known.push((i, 0));
            proof {
                assert(known@[start.len() as int] == (i, 0usize));
                assert forall|a: int, k: int| #[trigger] is_known(node_models(nodes@), a, k) && a < i implies lists(known@, a, k) by {
                    let m = choose|m: int| 0 <= m < start.len() && (#[trigger] start[m]).0 == a && start[m].1 == k;
                    assert(known@[m] == start[m]);
                }
            }
            let mut k: usize = 0;
            while k < count
                invariant
                    i < nodes@.len(),
                    nodes@[i as int].is_elder,
                    count == nodes@[i as int].neighbours@.len(),
                    k <= count,
                    forall|m: int|
                        0 <= m < known@.len() ==> is_known(node_models(nodes@), (#[trigger] known@[m]).0 as int, known@[m].1 as int),
                    forall|a: int, b: int| #[trigger] is_known(node_models(nodes@), a, b) && (a < i || (a == i && b <= k)) ==> lists(known@, a, b),
                decreases count - k,
            {
                let ghost before = known@;
                known.push((i, k + 1));
                proof {
                    assert forall|a: int, b: int| #[trigger]
                        is_known(node_models(nodes@), a, b) && (a < i || (a == i && b <= k + 1)) implies lists(known@, a, b) by {
                        if a < i || (a == i && b <= k) {
                            let m = choose|m: int| 0 <= m < before.len() && (#[trigger] before[m]).0 == a && before[m].1 == b;
                            assert(known@[m] == before[m]);
                        } else {
                            assert(known@[before.len() as int] == (i, (k + 1) as usize));
                        }
                    }
                }
                k = k + 1;
            }
        }
        i = i + 1;
    }
    known
}

/// Returns section `at.1` in the view of node `at.0`.
fn section_at(nodes: &Vec<NodeView>, at: (usize, usize)) -> (section: &EldersInfo)
    requires
        is_known(node_models(nodes@), at.0 as int, at.1 as int),
    ensures
        section@ == section_of(node_models(nodes@)[at.0 as int], at.1 as int),
{
    if at.1 == 0 {
        &nodes[at.0].our_section
    } else {
        &nodes[at.0].neighbours[at.1 - 1]
    }
}

/// Checks the views of the nodes against each other: wherever two elders
/// know the same section they agree on its version and its elders; known
/// sections with different prefixes are disjoint; the elders of every known
/// section lie in its prefix; and the known sections cover the whole
/// address space. The error is the first rule, in this order, that is broken.
pub fn verify_section_invariants_between_nodes(nodes: &Vec<NodeView>) -> (r: Result<(), NetworkViolation>)
    ensures
        r == (match network_violation(node_models(nodes@)) {
            None => Ok::<(), NetworkViolation>(()),
            Some(v) => Err::<(), NetworkViolation>(v),
        }),
{
    let known = known_sections(nodes);
    let mut prefixes: Vec<Prefix> = Vec::new();
    let mut agree = true;
    let mut disjoint = true;
    let mut elders_match = true;
    let mut m: usize = 0;
    while m < known.len()
        invariant
            m <= known@.len(),
            lists_all(node_models(nodes@), known@),
            prefixes@.len() == m,
            forall|a: int| 0 <= a < m ==> prefixes@[a] == known_prefix(node_models(nodes@), (#[trigger] known@[a]).0 as int, known@[a].1 as int),
            agree == forall|a: int, b: int|
                0 <= a < m && 0 <= b < known@.len() ==> pair_agrees(node_models(nodes@), #[trigger] known@[a], #[trigger] known@[b]),
            disjoint == forall|a: int, b: int|
                0 <= a < m && 0 <= b < known@.len() ==> pair_disjoint(node_models(nodes@), #[trigger] known@[a], #[trigger] known@[b]),
            elders_match == forall|a: int|
                0 <= a < m ==> section_of(node_models(nodes@)[(#[trigger] known@[a]).0 as int], known@[a].1 as int).elders_match(),
        decreases known@.len() - m,
    {
        let first = section_at(nodes, known[m]);
        prefixes.push(first.prefix());
        if !first.all_elders_match() {
            elders_match = false;
        }
        let mut row_agrees = true;
        let mut row_disjoint = true;
        let mut n: usize = 0;
        while n < known.len()
            invariant
                m < known@.len(),
                n <= known@.len(),
                lists_all(node_models(nodes@), known@),
                first@ == section_of(node_models(nodes@)[known@[m as int].0 as int], known@[m as int].1 as int),
                row_agrees == forall|b: int| 0 <= b < n ==> pair_agrees(node_models(nodes@), known@[m as int], #[trigger] known@[b]),
                row_disjoint == forall|b: int| 0 <= b < n ==> pair_disjoint(node_models(nodes@), known@[m as int], #[trigger] known@[b]),
            decreases known@.len() - n,
        {
            let second = section_at(nodes, known[n]);
            if first.prefix() == second.prefix() {
                if !first.agrees(second) {
                    row_agrees = false;
                }
            } else if first.prefix().is_compatible(&second.prefix()) {
                row_disjoint = false;
            }
            n = n + 1;
        }
        if !row_agrees {
            agree = false;
        }
        if !row_disjoint {
            disjoint = false;
        }
        m = m + 1;
    }
    proof {
        lemma_pairs_are_all(node_models(nodes@), known@);
        assert(elders_match == known_elders_match(node_models(nodes@))) by {
            if elders_match {
                assert forall|i: int, k: int| #[trigger] is_known(node_models(nodes@), i, k) implies section_of(node_models(nodes@)[i], k).elders_match() by {
                    let a = choose|a: int| 0 <= a < known@.len() && (#[trigger] known@[a]).0 == i && known@[a].1 == k;
                    assert(section_of(node_models(nodes@)[known@[a].0 as int], known@[a].1 as int).elders_match());
                }
            }
        }
    }
    if !agree {
        return Err(NetworkViolation::Disagreement);
    }
    if !disjoint {
        return Err(NetworkViolation::Overlap);
    }
    if !elders_match {
        return Err(NetworkViolation::ElderOutsidePrefix);
    }
    let whole = Prefix::default();
    let covered = whole.is_covered_by(&prefixes);
    proof {
        let empty = whole@;
        let strings = bit_strings(prefixes@);
        if covered {
            assert forall|name: XorName| #[trigger] has_section(node_models(nodes@), name) by {
                assert(bits_match(empty, name));
                let a = choose|a: int| 0 <= a < strings.len() && bits_match(#[trigger] strings[a], name);
                assert(prefixes@[a] == known_prefix(node_models(nodes@), known@[a].0 as int, known@[a].1 as int));
            }
        }
        if sections_cover(node_models(nodes@)) {
            assert forall|name: XorName| #[trigger] bits_match(empty, name) implies exists|a: int|
                0 <= a < strings.len() && bits_match(#[trigger] strings[a], name) by {
                assert(has_section(node_models(nodes@), name));
                let (i, k) = choose|i: int, k: int| #[trigger]
                    is_known(node_models(nodes@), i, k) && known_prefix(node_models(nodes@), i, k).matches_spec(name);
                let a = choose|a: int| 0 <= a < known@.len() && (#[trigger] known@[a]).0 == i && known@[a].1 == k;
                assert(strings[a] == prefixes@[a]@);
            }
        }
    }
    if !covered {
        return Err(NetworkViolation::NotCovered);
    }
    Ok(())
}

/// The sections at the two places agree if they have the same prefix.
spec fn pair_agrees(nodes: Seq<NodeModel>, a: (usize, usize), b: (usize, usize)) -> bool {
    known_prefix(nodes, a.0 as int, a.1 as int) == known_prefix(nodes, b.0 as int, b.1 as int) ==> section_of(
        nodes[a.0 as int],
        a.1 as int,
    ).agrees_with(section_of(nodes[b.0 as int], b.1 as int))
}

/// The sections at the two places are disjoint if they have different prefixes.
spec fn pair_disjoint(nodes: Seq<NodeModel>, a: (usize, usize), b: (usize, usize)) -> bool {
    known_prefix(nodes, a.0 as int, a.1 as int) != known_prefix(nodes, b.0 as int, b.1 as int) ==> !known_prefix(
        nodes,
        a.0 as int,
        a.1 as int,
    ).is_compatible_spec(known_prefix(nodes, b.0 as int, b.1 as int))
}

/// What holds of every pair of listed places holds of every pair of known sections.
proof fn lemma_pairs_are_all(nodes: Seq<NodeModel>, known: Seq<(usize, usize)>)
    requires
        lists_all(nodes, known),
    ensures
        sections_agree(nodes) == forall|a: int, b: int|
            0 <= a < known.len() && 0 <= b < known.len() ==> pair_agrees(nodes, #[trigger] known[a], #[trigger] known[b]),
        sections_disjoint(nodes) == forall|a: int, b: int|
            0 <= a < known.len() && 0 <= b < known.len() ==> pair_disjoint(nodes, #[trigger] known[a], #[trigger] known[b]),
{
    if forall|a: int, b: int|
        0 <= a < known.len() && 0 <= b < known.len() ==> pair_agrees(nodes, #[trigger] known[a], #[trigger] known[b]) {
        assert forall|i: int, k: int, j: int, l: int|
            #[trigger] is_known(nodes, i, k) && #[trigger] is_known(nodes, j, l) && known_prefix(nodes, i, k)
                == known_prefix(nodes, j, l) implies section_of(nodes[i], k).agrees_with(section_of(nodes[j], l)) by {
            let a = choose|a: int| 0 <= a < known.len() && (#[trigger] known[a]).0 == i && known[a].1 == k;
            let b = choose|b: int| 0 <= b < known.len() && (#[trigger] known[b]).0 == j && known[b].1 == l;
            assert(pair_agrees(nodes, known[a], known[b]));
        }
    }
    if forall|a: int, b: int|
        0 <= a < known.len() && 0 <= b < known.len() ==> pair_disjoint(nodes, #[trigger] known[a], #[trigger] known[b]) {
        assert forall|i: int, k: int, j: int, l: int|
            #[trigger] is_known(nodes, i, k) && #[trigger] is_known(nodes, j, l) && known_prefix(nodes, i, k)
                != known_prefix(nodes, j, l) implies !known_prefix(nodes, i, k).is_compatible_spec(
            known_prefix(nodes, j, l),
        ) by {
        }
    }
}

/// Checks the view of every node by itself and then the views against each
/// other. The error is the first broken rule of the first check that fails.
pub fn verify_invariant_for_all_nodes(nodes: &Vec<NodeView>, elder_size: usize) -> (r: Result<(), InvariantViolation>)
    ensures
        match r {
            Ok(()) => network_violation(node_models(nodes@)) is None && forall|i: int|
                0 <= i < nodes@.len() ==> (#[trigger] nodes@[i])@.invariant_holds(elder_size),
            Err(InvariantViolation::Node(at, v)) => at < nodes@.len() && nodes@[at as int]@.first_violation(elder_size) == Some(v)
                && forall|i: int| 0 <= i < at ==> (#[trigger] nodes@[i])@.invariant_holds(elder_size),
            Err(InvariantViolation::Network(v)) => network_violation(node_models(nodes@)) == Some(v) && forall|i: int|
                0 <= i < nodes@.len() ==> (#[trigger] nodes@[i])@.invariant_holds(elder_size),
        },
{
    match verify_section_invariants_for_nodes(nodes, elder_size) {
        Ok(()) => {},
        Err((at, v)) => {
            return Err(InvariantViolation::Node(at, v));
        },
    }
    match verify_section_invariants_between_nodes(nodes) {
        Ok(()) => Ok(()),
        Err(v) => Err(InvariantViolation::Network(v)),
    }
}

/// A broken rule of section membership.
#[derive(Clone, Copy, Debug, PartialEq, Eq, Structural)]
pub enum InvariantViolation {
    /// The view of the node at this position breaks this rule.
    Node(usize, NodeViolation),
    /// The views break this rule together.
    Network(NetworkViolation),
}

/// Two prefixes that match one name are compatible.
pub proof fn lemma_matching_prefixes_compatible(a: Seq<bool>, b: Seq<bool>, name: XorName)
    requires
        bits_match(a, name),
        bits_match(b, name),
    ensures
        bits_compatible(a, b),
{
}

/// Where the views of the nodes break no rule together, two elders that
/// know a section with the same prefix show the same version and the same
/// elders of it.
pub proof fn lemma_elders_agree_on_sections(nodes: Seq<NodeModel>, i: int, k: int, j: int, l: int)
    requires
        network_violation(nodes) is None,
        is_known(nodes, i, k),
        is_known(nodes, j, l),
        known_prefix(nodes, i, k) == known_prefix(nodes, j, l),
    ensures
        section_of(nodes[i], k).version == section_of(nodes[j], l).version,
        section_of(nodes[i], k).elder_set() == section_of(nodes[j], l).elder_set(),
{
}

/// Where the views of the nodes break no rule together, the known sections
/// partition the address space: every name belongs to a known section, and
/// the known sections that it belongs to all have the same prefix.
pub proof fn lemma_sections_partition_names(nodes: Seq<NodeModel>, name: XorName)
    requires
        network_violation(nodes) is None,
    ensures
        has_section(nodes, name),
        forall|i: int, k: int, j: int, l: int|
            #[trigger] is_known(nodes, i, k) && #[trigger] is_known(nodes, j, l) && known_prefix(nodes, i, k).matches_spec(
                name,
            ) && known_prefix(nodes, j, l).matches_spec(name) ==> known_prefix(nodes, i, k) == known_prefix(nodes, j, l),
{
    assert forall|i: int, k: int, j: int, l: int|
        #[trigger] is_known(nodes, i, k) && #[trigger] is_known(nodes, j, l) && known_prefix(nodes, i, k).matches_spec(name)
            && known_prefix(nodes, j, l).matches_spec(name) implies known_prefix(nodes, i, k) == known_prefix(nodes, j, l) by {
        lemma_matching_prefixes_compatible(known_prefix(nodes, i, k)@, known_prefix(nodes, j, l)@, name);
    }
}

/// The first node of a network breaks no rule, whatever the number of
/// elders that a section needs: an elder whose section has the empty prefix
/// and itself as the only elder, and which knows no neighbour.
pub proof fn lemma_genesis_breaks_no_rule(node: NodeModel, elder_size: usize)
    requires
        node.is_elder,
        node.our_prefix()@.len() == 0,
        node.neighbours.len() == 0,
        node.our_section.elder_set() == set![node.name],
    ensures
        node.invariant_holds(elder_size),
        network_violation(seq![node]) is None,
{
    reveal(NodeModel::first_violation);
    let nodes = seq![node];
    assert forall|i: int, k: int, j: int, l: int| #[trigger] is_known(nodes, i, k) && #[trigger] is_known(nodes, j, l) implies i
        == 0 && k == 0 && j == 0 && l == 0 by {}
    assert forall|name: XorName| #[trigger] has_section(nodes, name) by {
        assert(is_known(nodes, 0, 0));
    }
}

} // verus!
