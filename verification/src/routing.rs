//! What a member of a section does with a routed message.
//!
//! A message that the incoming filter knows is dropped. A message for the
//! node is delivered to the application. Any other message is forwarded to
//! the elders of the known section that is closest to its destination, as
//! far as the outgoing filter lets it pass.
//!
//! The known sections are the node's own and its neighbours. The closest of
//! them to a name is the one whose prefix matches the name in the most
//! leading bits; between two that match equally far, the one with the elder
//! whose name is closest to the name in XOR distance; between two that are
//! still equal, the one that the node has known for longer.

use vstd::prelude::*;
use crate::chain::{EldersInfo, SectionModel};
use crate::crypto::Digest256;
use crate::event::Event;
use crate::invariants::{section_models, NodeModel};
use crate::location::{DstLocation, SrcLocation};
use crate::messages::MessageWithBytes;
use crate::outbox::{Command, Outbox};
use crate::p2p_node::{ConnectionInfo, P2pNode};
use crate::prefix::Prefix;
use crate::routing_message_filter::{outgoing_key, FilteringResult, RoutingFilterModel, RoutingMessageFilter};
use crate::section_chain::Chain;
use crate::xor_name::XorName;

verus! {

/// The position of the first bit from `i` on in which `bits` and the name
/// differ, or the length of `bits` if there is none.
pub open spec fn match_from(bits: Seq<bool>, name: XorName, i: int) -> int
    decreases bits.len() - i,
{
    if i < 0 || i >= bits.len() || bits[i] != name.bit_at(i) {
        i
    } else {
        match_from(bits, name, i + 1)
    }
}

/// The number of leading bits of `bits` that the name starts with.
pub open spec fn match_len(bits: Seq<bool>, name: XorName) -> int {
    match_from(bits, name, 0)
}

/// One more than the largest distance between two names.
pub open spec fn beyond_any_distance() -> nat {
    0x1_0000_0000_0000_0000_0000_0000_0000_0000_0000_0000_0000_0000_0000_0000_0000_0000nat
}

/// The distance from `name` of the closest of `members`, or one more than
/// the largest distance if there are none.
pub open spec fn closest_distance(members: Seq<P2pNode>, name: XorName) -> nat
    decreases members.len(),
{
    if members.len() == 0 {
        beyond_any_distance()
    } else if name.distance(members.last().public_id.name) < closest_distance(members.drop_last(), name) {
        name.distance(members.last().public_id.name)
    } else {
        closest_distance(members.drop_last(), name)
    }
}

/// The first section is closer to the name than the second: its prefix
/// matches the name further, or as far and it has the closer elder.
pub open spec fn is_closer_section(a: SectionModel, b: SectionModel, name: XorName) -> bool {
    match_len(a.prefix@, name) > match_len(b.prefix@, name) || (match_len(a.prefix@, name) == match_len(b.prefix@, name)
        && closest_distance(a.members, name) < closest_distance(b.members, name))
}

/// The position of the section closest to the name among the first `n` of
/// `sections`: the first of them that none of them is closer than.
pub open spec fn closest_section(sections: Seq<SectionModel>, name: XorName, n: int) -> int
    decreases n,
{
    if n <= 1 {
        0
    } else if is_closer_section(sections[n - 1], sections[closest_section(sections, name, n - 1)], name) {
        n - 1
    } else {
        closest_section(sections, name, n - 1)
    }
}

/// Those of `members` that are not called `name`, in their order.
pub open spec fn others(members: Seq<P2pNode>, name: XorName) -> Seq<P2pNode>
    decreases members.len(),
{
    if members.len() == 0 {
        Seq::empty()
    } else if members.last().public_id.name != name {
        others(members.drop_last(), name).push(members.last())
    } else {
        others(members.drop_last(), name)
    }
}

impl NodeModel {
    /// The sections that the node knows: its own, then its neighbours.
    pub open spec fn known_sections(self) -> Seq<SectionModel> {
        seq![self.our_section] + self.neighbours
    }

    /// The name that a message for `dst` is routed towards, if it is routed.
    pub open spec fn target_of(dst: DstLocation) -> Option<XorName> {
        match dst {
            DstLocation::Direct => None,
            DstLocation::Node(name) => Some(name),
            DstLocation::Section(name) => Some(name),
            DstLocation::PrefixSection(prefix) => Some(prefix.name_spec()),
        }
    }

    /// The nodes that a message for `dst` goes to next: the elders of the
    /// known section closest to the destination, without the node itself.
    /// A message for the directly connected peer is not routed.
    pub open spec fn next_hops(self, dst: DstLocation) -> Seq<P2pNode> {
        match Self::target_of(dst) {
            None => Seq::empty(),
            Some(name) => others(
                self.known_sections()[closest_section(self.known_sections(), name, self.known_sections().len() as int)].members,
                self.name,
            ),
        }
    }
}

/// Those of `hops` that a message may still go to, and the filters after
/// they were asked about each hop in turn.
pub open spec fn passed_hops(filter: RoutingFilterModel, hops: Seq<P2pNode>, dst: DstLocation, digest: Digest256, now: u64) -> (
    Seq<ConnectionInfo>,
    RoutingFilterModel,
)
    decreases hops.len(),
{
    if hops.len() == 0 {
        (Seq::empty(), filter)
    } else {
        let (passed, asked) = passed_hops(filter, hops.drop_last(), dst, digest, now);
        let key = outgoing_key(digest, hops.last().public_id);
        (
            if asked.outgoing_verdict(dst, key, now) == FilteringResult::NewMessage {
                passed.push(hops.last().connection_info)
            } else {
                passed
            },
            asked.after_outgoing(dst, key, now),
        )
    }
}

/// What became of a routed message.
#[derive(Clone, Copy, Debug, PartialEq, Eq, Structural)]
pub enum Routed {
    /// The incoming filter knew the message: it was dropped.
    Dropped,
    /// The message was for this node: the application has it.
    Delivered,
    /// The message was passed on, to as many peers as this.
    Forwarded(usize),
}

/// What becomes of a message for `dst` with the digest `digest` that a node
/// routes at the reading `now`, and the filters after that.
pub open spec fn route_outcome(node: NodeModel, filter: RoutingFilterModel, dst: DstLocation, digest: Digest256, now: u64) -> (
    Routed,
    RoutingFilterModel,
) {
    if filter.incoming_verdict(dst, digest, now) == FilteringResult::KnownMessage {
        (Routed::Dropped, filter.after_incoming(dst, digest, now))
    } else if dst.contains_spec(node.name, node.our_section.prefix) {
        (Routed::Delivered, filter.after_incoming(dst, digest, now))
    } else {
        (
            Routed::Forwarded(route_targets(node, filter, dst, digest, now).len() as usize),
            passed_hops(filter.after_incoming(dst, digest, now), node.next_hops(dst), dst, digest, now).1,
        )
    }
}

/// The peers that a forwarded message goes to.
pub open spec fn route_targets(node: NodeModel, filter: RoutingFilterModel, dst: DstLocation, digest: Digest256, now: u64) -> Seq<
    ConnectionInfo,
> {
    passed_hops(filter.after_incoming(dst, digest, now), node.next_hops(dst), dst, digest, now).0
}

/// The events of routing a message: a delivered message is handed to the application.
pub open spec fn route_events(routed: Routed, src: SrcLocation, dst: DstLocation, content: Vec<u8>) -> Seq<Event> {
    if routed == Routed::Delivered {
        seq![Event::MessageReceived { src, dst, content }]
    } else {
        Seq::empty()
    }
}

/// The commands `after` are the commands `before` and what routing a
/// message adds: one command that names the peers that a forwarded message
/// goes to, where there are any.
pub open spec fn route_commands(
    before: Seq<Command>,
    after: Seq<Command>,
    node: NodeModel,
    filter: RoutingFilterModel,
    dst: DstLocation,
    digest: Digest256,
    now: u64,
) -> bool {
    if route_outcome(node, filter, dst, digest, now).0 is Forwarded && route_targets(node, filter, dst, digest, now).len() > 0 {
        &&& after.len() == before.len() + 1
        &&& after.drop_last() == before
        &&& after.last() matches Command::Forward { dsts } && dsts@ == route_targets(node, filter, dst, digest, now)
    } else {
        after == before
    }
}

/// No section among the first `n` is closer to the name than the closest of
/// them, and the closest is closer than every section before it.
pub proof fn lemma_closest_section_is_unbeaten(sections: Seq<SectionModel>, name: XorName, n: int)
    requires
        1 <= n <= sections.len(),
    ensures
        0 <= closest_section(sections, name, n) < n,
        forall|c: int| 0 <= c < n ==> !is_closer_section(#[trigger] sections[c], sections[closest_section(sections, name, n)], name),
        forall|c: int|
            0 <= c < closest_section(sections, name, n) ==> is_closer_section(
                sections[closest_section(sections, name, n)],
                #[trigger] sections[c],
                name,
            ),
    decreases n,
{
    if n > 1 {
        lemma_closest_section_is_unbeaten(sections, name, n - 1);
    }
}

/// The leading bits up to `m` agree and bit `m`, if there is one, differs:
/// then `m` is where matching from `i` stops.
proof fn lemma_match_from(bits: Seq<bool>, name: XorName, i: int, m: int)
    requires
        0 <= i <= m <= bits.len(),
        forall|j: int| i <= j < m ==> #[trigger] bits[j] == name.bit_at(j),
        m < bits.len() ==> bits[m] != name.bit_at(m),
    ensures
        match_from(bits, name, i) == m,
    decreases m - i,
{
    if i < m {
        lemma_match_from(bits, name, i + 1, m);
    }
}

/// Returns the number of leading bits of the prefix that the name starts with.
pub fn matching_bits(prefix: &Prefix, name: &XorName) -> (m: usize)
    ensures
        m == match_len(prefix@, *name),
        m <= prefix@.len(),
{
    let n = prefix.bit_count();
    let lowest = prefix.name();
    let common = lowest.common_prefix(name);
    let m = if common < n { common } else { n };
    proof {
        lemma_match_from(prefix@, *name, 0, m as int);
    }
    m
}

/// Returns the name of the elder closest to `name`, if the section has elders.
pub fn closest_elder(info: &EldersInfo, name: &XorName) -> (closest: Option<XorName>)
    ensures
        match closest {
            Some(elder) => info@.elder_set().contains(elder) && closest_distance(info@.members, *name) == name.distance(elder),
            None => info@.members.len() == 0 && closest_distance(info@.members, *name) == beyond_any_distance(),
        },
{
    let members = info.members();
    let mut closest: Option<XorName> = None;
    let mut i: usize = 0;
    while i < members.len()
        invariant
            i <= members@.len(),
            match closest {
                Some(elder) => crate::chain::names_of(members@).contains(elder) && closest_distance(members@.take(i as int), *name)
                    == name.distance(elder),
                None => i == 0,
            },
        decreases members@.len() - i,
    {
        let elder = members[i].public_id.name;
        proof {
            let next = members@.take(i + 1);
            let head = members@.take(i as int);
            assert(next.drop_last() =~= head);
            assert(crate::chain::names_of(members@)[i as int] == elder);
            assert(closest_distance(next, *name) == (if name.distance(elder) < closest_distance(head, *name) {
                name.distance(elder)
            } else {
                closest_distance(head, *name)
            }));
        }
        closest = match closest {
            Some(best) => if name.closer(&elder, &best) { Some(elder) } else { Some(best) },
            None => Some(elder),
        };
        i = i + 1;
    }
    assert(members@.take(members@.len() as int) =~= members@);
    closest
}

/// Returns whether the distance of `a` is smaller than that of `b`, where a
/// missing name stands for a distance beyond any other.
fn is_nearer(name: &XorName, a: Option<XorName>, b: Option<XorName>) -> (r: bool)
    ensures
        r == ((match a {
            Some(x) => name.distance(x),
            None => beyond_any_distance(),
        }) < (match b {
            Some(y) => name.distance(y),
            None => beyond_any_distance(),
        })),
{
    match a {
        None => false,
        Some(x) => match b {
            None => true,
            Some(y) => name.closer(&x, &y),
        },
    }
}

impl Chain {
    /// Returns the record of known section `k`: the node's own for 0, and
    /// then its neighbours.
    fn known_section(&self, k: usize) -> (info: &EldersInfo)
        requires
            k < self@.known_sections().len(),
        ensures
            info@ == self@.known_sections()[k as int],
    {
        if k == 0 {
            self.our_info()
        } else {
            let neighbours = self.neighbour_infos();
            &neighbours[k - 1]
        }
    }

    /// Returns the position of the known section closest to `name`.
    fn closest_known_section(&self, name: &XorName) -> (at: usize)
        ensures
            at == closest_section(self@.known_sections(), *name, self@.known_sections().len() as int),
            at < self@.known_sections().len(),
    {
        let count = self.neighbour_infos().len();
        let ours = self.our_info();
        let mut at: usize = 0;
        let mut best_len = matching_bits(&ours.prefix(), name);
        let mut best_elder = closest_elder(ours, name);
        let mut k: usize = 0;
        while k < count
            invariant
                k <= count,
                count + 1 == self@.known_sections().len(),
                at <= k,
                at == closest_section(self@.known_sections(), *name, k + 1),
                best_len == match_len(self@.known_sections()[at as int].prefix@, *name),
                closest_distance(self@.known_sections()[at as int].members, *name) == (match best_elder {
                    Some(x) => name.distance(x),
                    None => beyond_any_distance(),
                }),
            decreases count - k,
        {
            let info = self.known_section(k + 1);
            let len = matching_bits(&info.prefix(), name);
            let elder = closest_elder(info, name);
            if len > best_len || (len == best_len && is_nearer(name, elder, best_elder)) {
                at = k + 1;
                best_len = len;
                best_elder = elder;
            }
            k = k + 1;
        }
        at
    }

    /// Returns the nodes that a message for `dst` goes to next.
    pub fn next_hops(&self, dst: &DstLocation) -> (hops: Vec<P2pNode>)
        ensures
            hops@ == self@.next_hops(*dst),
    {
        let target = match dst {
            DstLocation::Direct => {
                return Vec::new();
            },
            DstLocation::Node(name) => *name,
            DstLocation::Section(name) => *name,
            DstLocation::PrefixSection(prefix) => prefix.name(),
        };
        let at = self.closest_known_section(&target);
        let members = self.known_section(at).members();
        let ours = self.name();
        let mut hops: Vec<P2pNode> = Vec::new();
        let mut i: usize = 0;
        while i < members.len()
            invariant
                i <= members@.len(),
                hops@ == others(members@.take(i as int), ours),
            decreases members@.len() - i,
        {
            proof {
                let next = members@.take(i + 1);
                assert(next.drop_last() =~= members@.take(i as int));
            }
            if members[i].public_id.name != ours {
                hops.push(members[i]);
            }
            i = i + 1;
        }
        assert(members@.take(members@.len() as int) =~= members@);
        hops
    }

    /// Routes a message that arrived at the reading `now` of the clock.
    ///
    /// A message that the incoming filter knows is dropped. A message whose
    /// destination the node belongs to is delivered: the application gets
    /// it as an event. Any other message goes to the next hops that the
    /// outgoing filter lets it pass to, by one command that names them; no
    /// command is issued where none is left.
    pub fn route(
        &self,
        filter: &mut RoutingMessageFilter,
        msg: &MessageWithBytes,
        src: SrcLocation,
        content: Vec<u8>,
        now: u64,
        outbox: &mut Outbox,
    ) -> (routed: Routed)
        requires
            old(filter).wf(),
        ensures
            final(filter).wf(),
            final(filter)@.valid(),
            route_outcome(self@, old(filter)@, msg.dst_spec(), msg.hash_spec(), now) == (routed, final(filter)@),
            final(outbox).events@ == old(outbox).events@ + route_events(routed, src, msg.dst_spec(), content),
            route_commands(
                old(outbox).commands@,
                final(outbox).commands@,
                self@,
                old(filter)@,
                msg.dst_spec(),
                msg.hash_spec(),
                now,
            ),
    {
        let dst = *msg.message_dst();
        if !filter.filter_incoming_at(msg, now).is_new() {
            return Routed::Dropped;
        }
        if dst.contains(&self.name(), &self.our_prefix()) {
            outbox.send_event(Event::MessageReceived { src, dst, content });
            return Routed::Delivered;
        }
        let hops = self.next_hops(&dst);
        let ghost asked_first = filter@;
        let mut dsts: Vec<ConnectionInfo> = Vec::new();
        let mut i: usize = 0;
        while i < hops.len()
            invariant
                i <= hops@.len(),
                filter.wf(),
                filter@.valid(),
                dst == msg.dst_spec(),
                (dsts@, filter@) == passed_hops(asked_first, hops@.take(i as int), dst, msg.hash_spec(), now),
                dsts@.len() <= i,
            decreases hops@.len() - i,
        {
            proof {
                let next = hops@.take(i + 1);
                assert(next.drop_last() =~= hops@.take(i as int));
            }
            if filter.filter_outgoing_at(msg, &hops[i].public_id, now).is_new() {
                dsts.push(hops[i].connection_info);
            }
            i = i + 1;
        }
        assert(hops@.take(hops@.len() as int) =~= hops@);
        let count = dsts.len();
        if count > 0 {
            let ghost before = outbox.commands@;
            outbox.send_command(Command::Forward { dsts });
            assert(outbox.commands@.drop_last() =~= before);
        }
        Routed::Forwarded(count)
    }
}

} // verus!
