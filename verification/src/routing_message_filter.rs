//! The filters that keep a node from handling or sending a message twice.
//!
//! The incoming filter remembers the digest of every routed message for 20
//! minutes after the message last came in. The outgoing filter remembers,
//! for 10 minutes after it was last entered, each pair of a message digest
//! and the peer the message went to, so that one message can still go to
//! several peers. A message for the directly connected peer passes both
//! filters and leaves no trace in them.
//!
//! The model of the pair of filters is a `RoutingFilterModel`.

use vstd::prelude::*;
use lru_time_cache::LruCache;
use std::time::Instant;
use crate::cache::{
    cache_capacity,
    cache_entries,
    cache_expires,
    cache_insert,
    cache_with_capacity,
    entries_after_insert,
    entry_index,
    keys_distinct,
};
use crate::clock::{duration_millis, instant_elapsed, instant_now};
use crate::crypto::Digest256;
use crate::id::PublicId;
use crate::location::DstLocation;
use crate::message_filter::{lemma_counted_within_ttl, lemma_forgotten_after_ttl, FilterModel, MessageFilter, Seen};
use crate::messages::MessageWithBytes;

verus! {

/// The time for which the incoming filter remembers a message, in seconds.
pub const INCOMING_EXPIRY_DURATION_SECS: u64 = 60 * 20;

/// The time for which the outgoing filter remembers a message sent to a peer, in seconds.
pub const OUTGOING_EXPIRY_DURATION_SECS: u64 = 60 * 10;

/// The number of pairs of message and peer that the outgoing filter holds at most.
pub const OUTGOING_CAPACITY: usize = 0x1_0000;

/// The time to live of the incoming filter in milliseconds.
pub open spec fn incoming_ttl() -> u64 {
    1_200_000
}

/// The time to live of the outgoing filter in milliseconds.
pub open spec fn outgoing_ttl() -> u64 {
    600_000
}

/// The result of message filtering.
#[derive(Clone, Copy, Debug, PartialEq, Eq, Structural)]
pub enum FilteringResult {
    /// The message is not in the filter yet.
    NewMessage,
    /// The message is in the filter.
    KnownMessage,
}

impl FilteringResult {
    /// Returns whether the message was new to the filter.
    pub fn is_new(&self) -> (b: bool)
        ensures
            b == (*self is NewMessage),
    {
        match self {
            FilteringResult::NewMessage => true,
            FilteringResult::KnownMessage => false,
        }
    }
}

/// The key under which the outgoing filter remembers that the message with
/// this digest went to this peer: the digest and the whole identity of the
/// peer, its name and its key.
pub open spec fn outgoing_key(digest: Digest256, peer: PublicId) -> (u128, u128, u128, u128, u128, u128) {
    (digest.hi, digest.lo, peer.name.hi, peer.name.lo, peer.public_key.hi, peer.public_key.lo)
}

/// Two pairs of a message and a peer have the same key in the outgoing
/// filter only if they are the same message and the same peer.
pub proof fn lemma_outgoing_key_tells_pairs_apart(digest: Digest256, peer: PublicId, other_digest: Digest256, other_peer: PublicId)
    ensures
        outgoing_key(digest, peer) == outgoing_key(other_digest, other_peer) <==> digest == other_digest && peer
            == other_peer,
{
}

/// An entry of the outgoing filter that was entered at `entered` still
/// counts at the reading `now`.
pub open spec fn is_fresh(entered: u64, now: u64) -> bool {
    now - entered <= outgoing_ttl()
}

/// The model of the two filters.
pub struct RoutingFilterModel {
    /// The incoming filter.
    pub incoming: FilterModel,
    /// The entries of the outgoing filter, each a key and the reading of the
    /// clock at which it was last entered, least recently entered first.
    pub outgoing: Seq<((u128, u128, u128, u128, u128, u128), u64)>,
}

impl RoutingFilterModel {
    /// The incoming filter is valid, and the outgoing filter holds no key
    /// twice and no more entries than its capacity.
    pub open spec fn valid(self) -> bool {
        &&& self.incoming.valid()
        &&& self.incoming.time_to_live == incoming_ttl()
        &&& keys_distinct(self.outgoing)
        &&& self.outgoing.len() <= OUTGOING_CAPACITY
    }

    /// What the incoming filter answers for a message at the reading `now`.
    pub open spec fn incoming_verdict(self, dst: DstLocation, digest: Digest256, now: u64) -> FilteringResult {
        if dst is Direct {
            FilteringResult::NewMessage
        } else if self.incoming.seen_after(digest, now).count > 1 {
            FilteringResult::KnownMessage
        } else {
            FilteringResult::NewMessage
        }
    }

    /// The filters after the incoming filter was asked about a message.
    pub open spec fn after_incoming(self, dst: DstLocation, digest: Digest256, now: u64) -> RoutingFilterModel {
        if dst is Direct {
            self
        } else {
            RoutingFilterModel { incoming: self.incoming.insert(digest, now), outgoing: self.outgoing }
        }
    }

    /// What the outgoing filter answers for a message and a peer at the reading `now`.
    pub open spec fn outgoing_verdict(self, dst: DstLocation, key: (u128, u128, u128, u128, u128, u128), now: u64) -> FilteringResult {
        if dst is Direct {
            FilteringResult::NewMessage
        } else {
            match entry_index(self.outgoing, key) {
                Some(i) => if is_fresh(self.outgoing[i].1, now) {
                    FilteringResult::KnownMessage
                } else {
                    FilteringResult::NewMessage
                },
                None => FilteringResult::NewMessage,
            }
        }
    }

    /// The filters after the outgoing filter was asked about a message and a peer.
    pub open spec fn after_outgoing(self, dst: DstLocation, key: (u128, u128, u128, u128, u128, u128), now: u64) -> RoutingFilterModel {
        if dst is Direct {
            self
        } else {
            RoutingFilterModel {
                incoming: self.incoming,
                outgoing: entries_after_insert(self.outgoing, OUTGOING_CAPACITY as nat, key, now),
            }
        }
    }
}

/// An insertion keeps the keys of a cache distinct and its size within the
/// capacity, and leaves the inserted key last, with its new value.
pub proof fn lemma_insert_keeps_distinct(
    entries: Seq<((u128, u128, u128, u128, u128, u128), u64)>,
    capacity: nat,
    key: (u128, u128, u128, u128, u128, u128),
    value: u64,
)
    requires
        keys_distinct(entries),
        capacity >= 1,
        entries.len() <= capacity,
    ensures
        keys_distinct(entries_after_insert(entries, capacity, key, value)),
        1 <= entries_after_insert(entries, capacity, key, value).len() <= capacity,
        entries_after_insert(entries, capacity, key, value).last() == (key, value),
{
    let r = entries_after_insert(entries, capacity, key, value);
    match entry_index(entries, key) {
        Some(i) => {
            assert forall|a: int, b: int| 0 <= a < r.len() && 0 <= b < r.len() && a != b implies (#[trigger] r[a]).0 != (
            #[trigger] r[b]).0 by {
            }
        },
        None => {
            let drop = if entries.len() >= capacity { entries.len() - capacity + 1 } else { 0 };
            let base = entries.skip(drop);
            assert forall|a: int, b: int| 0 <= a < r.len() && 0 <= b < r.len() && a != b implies (#[trigger] r[a]).0 != (
            #[trigger] r[b]).0 by {
                assert(r == base.push((key, value)));
            }
        },
    }
}

/// The entries of the outgoing filter after the pairs of `ops` were entered,
/// each at its reading, in order.
pub open spec fn outgoing_after_all(
    entries: Seq<((u128, u128, u128, u128, u128, u128), u64)>,
    ops: Seq<((u128, u128, u128, u128, u128, u128), u64)>,
) -> Seq<((u128, u128, u128, u128, u128, u128), u64)>
    decreases ops.len(),
{
    if ops.len() == 0 {
        entries
    } else {
        entries_after_insert(outgoing_after_all(entries, ops.drop_last()), OUTGOING_CAPACITY as nat, ops.last().0, ops.last().1)
    }
}

/// The key is among `entries`, no further than `distance` from their end,
/// and was entered at a reading that still counts at `now`.
pub open spec fn fresh_near_end(
    entries: Seq<((u128, u128, u128, u128, u128, u128), u64)>,
    key: (u128, u128, u128, u128, u128, u128),
    distance: int,
    now: u64,
) -> bool {
    exists|i: int|
        0 <= i < entries.len() && (#[trigger] entries[i]).0 == key && entries.len() - i <= distance && is_fresh(
            entries[i].1,
            now,
        )
}

proof fn lemma_insert_moves_by_one(
    entries: Seq<((u128, u128, u128, u128, u128, u128), u64)>,
    key: (u128, u128, u128, u128, u128, u128),
    distance: int,
    now: u64,
    other: (u128, u128, u128, u128, u128, u128),
    reading: u64,
)
    requires
        keys_distinct(entries),
        entries.len() <= OUTGOING_CAPACITY,
        fresh_near_end(entries, key, distance, now),
        distance < OUTGOING_CAPACITY,
        is_fresh(reading, now),
    ensures
        fresh_near_end(entries_after_insert(entries, OUTGOING_CAPACITY as nat, other, reading), key, distance + 1, now),
{
    let cap = OUTGOING_CAPACITY as nat;
    let r = entries_after_insert(entries, cap, other, reading);
    lemma_insert_keeps_distinct(entries, cap, other, reading);
    let i = choose|i: int|
        0 <= i < entries.len() && (#[trigger] entries[i]).0 == key && entries.len() - i <= distance && is_fresh(
            entries[i].1,
            now,
        );
    if other != key {
        match entry_index(entries, other) {
            Some(j) => {
                if j < i {
                    assert(r[i - 1] == entries[i]);
                } else {
                    assert(r[i] == entries[i]);
                }
            },
            None => {
                if entries.len() >= cap {
                    assert(r[i - 1] == entries[i]);
                } else {
                    assert(r[i] == entries[i]);
                }
            },
        }
    }
}

proof fn lemma_outgoing_survives(
    entries: Seq<((u128, u128, u128, u128, u128, u128), u64)>,
    key: (u128, u128, u128, u128, u128, u128),
    distance: int,
    ops: Seq<((u128, u128, u128, u128, u128, u128), u64)>,
    now: u64,
)
    requires
        keys_distinct(entries),
        entries.len() <= OUTGOING_CAPACITY,
        fresh_near_end(entries, key, distance, now),
        distance + ops.len() <= OUTGOING_CAPACITY,
        forall|i: int| 0 <= i < ops.len() ==> is_fresh((#[trigger] ops[i]).1, now),
    ensures
        keys_distinct(outgoing_after_all(entries, ops)),
        outgoing_after_all(entries, ops).len() <= OUTGOING_CAPACITY,
        fresh_near_end(outgoing_after_all(entries, ops), key, distance + ops.len(), now),
    decreases ops.len(),
{
    if ops.len() > 0 {
        let head = ops.drop_last();
        lemma_outgoing_survives(entries, key, distance, head, now);
        let mid = outgoing_after_all(entries, head);
        lemma_insert_keeps_distinct(mid, OUTGOING_CAPACITY as nat, ops.last().0, ops.last().1);
        lemma_insert_moves_by_one(mid, key, distance + head.len(), now, ops.last().0, ops.last().1);
    }
}

/// A message for the directly connected peer is new to both filters,
/// whatever they hold, and leaves both as they were.
pub proof fn lemma_direct_is_always_new(m: RoutingFilterModel, digest: Digest256, key: (u128, u128, u128, u128, u128, u128), now: u64)
    ensures
        m.incoming_verdict(DstLocation::Direct, digest, now) == FilteringResult::NewMessage,
        m.after_incoming(DstLocation::Direct, digest, now) == m,
        m.outgoing_verdict(DstLocation::Direct, key, now) == FilteringResult::NewMessage,
        m.after_outgoing(DstLocation::Direct, key, now) == m,
{
}

/// The incoming filter answers `NewMessage` for a routed message that it
/// does not remember, and `KnownMessage` for every occurrence of the message
/// within the time to live of an earlier one, the latest before it in
/// particular, as long as every reading of the clock in between, whatever
/// message was filtered then, is within the time to live of the earlier one.
pub proof fn lemma_incoming_new_then_known(
    m: RoutingFilterModel,
    dst: DstLocation,
    digest: Digest256,
    earlier: u64,
    between: Seq<(Digest256, u64)>,
    again: u64,
)
    requires
        m.valid(),
        !(dst is Direct),
        forall|i: int| 0 <= i < between.len() ==> (#[trigger] between[i]).1 - m.incoming.at(earlier) <= incoming_ttl(),
        again - m.incoming.at(earlier) <= incoming_ttl(),
    ensures
        !m.incoming.is_live(digest, m.incoming.at(earlier)) ==> m.incoming_verdict(dst, digest, earlier)
            == FilteringResult::NewMessage,
        (RoutingFilterModel {
            incoming: m.after_incoming(dst, digest, earlier).incoming.insert_all(between),
            outgoing: m.outgoing,
        }).incoming_verdict(dst, digest, again) == FilteringResult::KnownMessage,
{
    lemma_counted_within_ttl(m.incoming, digest, earlier, between, again);
}

/// Two messages with the same destination and the same digest are one
/// message to the incoming filter: it answers the same for both and is the
/// same after either.
pub proof fn lemma_incoming_goes_by_digest(m: RoutingFilterModel, one: MessageWithBytes, other: MessageWithBytes, now: u64)
    requires
        one.dst_spec() == other.dst_spec(),
        one.hash_spec() == other.hash_spec(),
    ensures
        m.incoming_verdict(one.dst_spec(), one.hash_spec(), now) == m.incoming_verdict(
            other.dst_spec(),
            other.hash_spec(),
            now,
        ),
        m.after_incoming(one.dst_spec(), one.hash_spec(), now) == m.after_incoming(other.dst_spec(), other.hash_spec(), now),
{
}

/// Once more than the time to live has passed since a routed message was
/// last filtered, the incoming filter answers `NewMessage` for it again.
pub proof fn lemma_incoming_new_after_ttl(m: RoutingFilterModel, dst: DstLocation, digest: Digest256, last: u64, again: u64)
    requires
        m.valid(),
        !(dst is Direct),
        again - m.incoming.at(last) > incoming_ttl(),
    ensures
        m.after_incoming(dst, digest, last).incoming_verdict(dst, digest, again) == FilteringResult::NewMessage,
{
    lemma_forgotten_after_ttl(m.incoming, digest, last, again);
}

/// The outgoing filter never answers `NewMessage` twice for the same message
/// and peer within the time to live: once the pair was filtered, the answer
/// for it is `KnownMessage` as long as the readings of the clock since then
/// are within the time to live of the new reading, and fewer pairs were
/// filtered in between than the filter has room for.
pub proof fn lemma_outgoing_known_within_ttl(
    m: RoutingFilterModel,
    dst: DstLocation,
    key: (u128, u128, u128, u128, u128, u128),
    first: u64,
    between: Seq<((u128, u128, u128, u128, u128, u128), u64)>,
    again: u64,
)
    requires
        m.valid(),
        !(dst is Direct),
        between.len() + 1 <= OUTGOING_CAPACITY,
        is_fresh(first, again),
        forall|i: int| 0 <= i < between.len() ==> is_fresh((#[trigger] between[i]).1, again),
    ensures
        (RoutingFilterModel {
            incoming: m.incoming,
            outgoing: outgoing_after_all(m.after_outgoing(dst, key, first).outgoing, between),
        }).outgoing_verdict(dst, key, again) == FilteringResult::KnownMessage,
{
    let cap = OUTGOING_CAPACITY as nat;
    let started = m.after_outgoing(dst, key, first).outgoing;
    lemma_insert_keeps_distinct(m.outgoing, cap, key, first);
    lemma_outgoing_survives(started, key, 1, between, again);
    let last = outgoing_after_all(started, between);
    let i = choose|i: int|
        0 <= i < last.len() && (#[trigger] last[i]).0 == key && last.len() - i <= 1 + between.len() && is_fresh(
            last[i].1,
            again,
        );
    assert(entry_index(last, key) == Some(i));
}

/// A message can still go to a peer that it has not gone to, whatever other
/// pairs of a message and a peer were entered: for a pair that the outgoing
/// filter does not hold, the answer is `NewMessage` after any number of
/// other pairs.
pub proof fn lemma_outgoing_new_for_another_pair(
    m: RoutingFilterModel,
    dst: DstLocation,
    key: (u128, u128, u128, u128, u128, u128),
    others: Seq<((u128, u128, u128, u128, u128, u128), u64)>,
    now: u64,
)
    requires
        entry_index(m.outgoing, key) is None,
        forall|i: int| 0 <= i < others.len() ==> (#[trigger] others[i]).0 != key,
    ensures
        entry_index(outgoing_after_all(m.outgoing, others), key) is None,
        (RoutingFilterModel { incoming: m.incoming, outgoing: outgoing_after_all(m.outgoing, others) }).outgoing_verdict(
            dst,
            key,
            now,
        ) == FilteringResult::NewMessage,
    decreases others.len(),
{
    if others.len() > 0 {
        let head = others.drop_last();
        lemma_outgoing_new_for_another_pair(m, dst, key, head, now);
        let mid = outgoing_after_all(m.outgoing, head);
        let r = outgoing_after_all(m.outgoing, others);
        assert(r == entries_after_insert(mid, OUTGOING_CAPACITY as nat, others.last().0, others.last().1));
        assert forall|i: int| 0 <= i < r.len() implies (#[trigger] r[i]).0 != key by {
            match entry_index(mid, others.last().0) {
                Some(j) => {
                    if i < r.len() - 1 {
                        assert(r[i] == mid[if i < j { i } else { i + 1 }]);
                    }
                },
                None => {
                    if i < r.len() - 1 {
                        if mid.len() >= OUTGOING_CAPACITY {
                            assert(r[i] == mid[i + mid.len() - OUTGOING_CAPACITY + 1]);
                        } else {
                            assert(r[i] == mid[i]);
                        }
                    }
                },
            }
        }
    }
}

/// Once more than the time to live has passed since a message was last
/// filtered for a peer, the outgoing filter answers `NewMessage` for the
/// pair again.
pub proof fn lemma_outgoing_new_after_ttl(
    m: RoutingFilterModel,
    dst: DstLocation,
    key: (u128, u128, u128, u128, u128, u128),
    first: u64,
    again: u64,
)
    requires
        m.valid(),
        !(dst is Direct),
        !is_fresh(first, again),
    ensures
        m.after_outgoing(dst, key, first).outgoing_verdict(dst, key, again) == FilteringResult::NewMessage,
{
    let cap = OUTGOING_CAPACITY as nat;
    let started = m.after_outgoing(dst, key, first).outgoing;
    lemma_insert_keeps_distinct(m.outgoing, cap, key, first);
    assert(entry_index(started, key) == Some(started.len() - 1));
}

/// The reading of the clock after `millis` milliseconds: their number, or
/// the largest reading if they are more than that.
pub open spec fn reading_after(millis: u128) -> u64 {
    if millis > u64::MAX {
        u64::MAX
    } else {
        millis as u64
    }
}

/// Returns the reading of the clock after `millis` milliseconds.
fn reading_of(millis: u128) -> (reading: u64)
    ensures
        reading == reading_after(millis),
{
    if millis > u64::MAX as u128 {
        u64::MAX
    } else {
        millis as u64
    }
}

/// The filters of incoming and outgoing messages.
pub struct RoutingMessageFilter {
    incoming: MessageFilter,
    outgoing: LruCache<(u128, u128, u128, u128, u128, u128), u64>,
    started: Instant,
}

impl View for RoutingMessageFilter {
    type V = RoutingFilterModel;

    closed spec fn view(&self) -> RoutingFilterModel {
        RoutingFilterModel { incoming: self.incoming@, outgoing: cache_entries(self.outgoing) }
    }
}

impl RoutingMessageFilter {
    /// The filters are as `new` made them: the outgoing filter has its
    /// capacity and the incoming filter its time to live.
    pub closed spec fn wf(self) -> bool {
        &&& cache_capacity(self.outgoing) == OUTGOING_CAPACITY
        &&& !cache_expires(self.outgoing)
        &&& self@.valid()
    }

    /// Creates a pair of empty filters. Their clock starts now.
    pub fn new() -> (filter: RoutingMessageFilter)
        ensures
            filter.wf(),
            filter@.valid(),
            filter@.incoming.entries == Map::<Digest256, Seen>::empty(),
            filter@.incoming.time_to_live == incoming_ttl(),
            filter@.incoming.clock == 0,
            filter@.outgoing == Seq::<((u128, u128, u128, u128, u128, u128), u64)>::empty(),
    {
        RoutingMessageFilter {
            incoming: MessageFilter::with_expiry_duration(INCOMING_EXPIRY_DURATION_SECS * 1000),
            outgoing: cache_with_capacity(OUTGOING_CAPACITY),
            started: instant_now(),
        }
    }

    /// Reads the clock: the milliseconds since the filter was made, as a
    /// reading. Nothing is known of what the clock shows.
    fn now(&self) -> u64 {
        let span = instant_elapsed(&self.started);
        reading_of(duration_millis(&span))
    }

    /// Filters an incoming message at the reading `now` of the clock, in
    /// milliseconds. The answer is `KnownMessage` if the message was entered
    /// before and is still remembered, and `NewMessage` otherwise; either way
    /// the filter has the message afterwards. A message for the directly
    /// connected peer is always new and is not entered.
    pub fn filter_incoming_at(&mut self, msg: &MessageWithBytes, now: u64) -> (res: FilteringResult)
        requires
            old(self).wf(),
        ensures
            final(self).wf(),
            final(self)@.valid(),
            res == old(self)@.incoming_verdict(msg.dst_spec(), msg.hash_spec(), now),
            final(self)@ == old(self)@.after_incoming(msg.dst_spec(), msg.hash_spec(), now),
    {
        if msg.message_dst().is_direct() {
            return FilteringResult::NewMessage;
        }
        let hash = msg.full_crypto_hash();
        if self.incoming.insert(hash, now) > 1 {
            FilteringResult::KnownMessage
        } else {
            FilteringResult::NewMessage
        }
    }

    /// Filters an incoming message at the present reading of the machine's
    /// clock: `filter_incoming_at` with that reading.
    pub fn filter_incoming(&mut self, msg: &MessageWithBytes) -> (res: FilteringResult)
        requires
            old(self).wf(),
        ensures
            final(self).wf(),
            final(self)@.valid(),
            exists|now: u64|
                res == #[trigger] old(self)@.incoming_verdict(msg.dst_spec(), msg.hash_spec(), now) && final(self)@
                    == old(self)@.after_incoming(msg.dst_spec(), msg.hash_spec(), now),
    {
        let now = self.now();
        self.filter_incoming_at(msg, now)
    }

    /// Filters a message that is about to go to the peer `pub_id`, at the
    /// reading `now` of the clock, in milliseconds. The answer is
    /// `KnownMessage`, and the message should not be sent, if the same
    /// message was entered for the same peer no longer than 10 minutes
    /// before; it is `NewMessage` otherwise. Either way the pair is entered
    /// afresh. A message for the directly connected peer is always new and
    /// is not entered.
    pub fn filter_outgoing_at(&mut self, msg: &MessageWithBytes, pub_id: &PublicId, now: u64) -> (res: FilteringResult)
        requires
            old(self).wf(),
        ensures
            final(self).wf(),
            final(self)@.valid(),
            res == old(self)@.outgoing_verdict(msg.dst_spec(), outgoing_key(msg.hash_spec(), *pub_id), now),
            final(self)@ == old(self)@.after_outgoing(msg.dst_spec(), outgoing_key(msg.hash_spec(), *pub_id), now),
    {
        if msg.message_dst().is_direct() {
            return FilteringResult::NewMessage;
        }
        let hash = msg.full_crypto_hash();
        let key = (hash.hi, hash.lo, pub_id.name.hi, pub_id.name.lo, pub_id.public_key.hi, pub_id.public_key.lo);
        proof {
            lemma_insert_keeps_distinct(cache_entries(self.outgoing), OUTGOING_CAPACITY as nat, key, now);
        }
        match cache_insert(&mut self.outgoing, key, now) {
            Some(entered) => if now <= entered || now - entered <= OUTGOING_EXPIRY_DURATION_SECS * 1000 {
                FilteringResult::KnownMessage
            } else {
                FilteringResult::NewMessage
            },
            None => FilteringResult::NewMessage,
        }
    }

    /// Filters what came of serialising a message that is about to go to the
    /// peer `pub_id`, at the reading `now`. A message that could not be
    /// serialised is not to be sent: the answer for it is `KnownMessage`, and
    /// the filter stays as it was. Any other message is filtered as by
    /// `filter_outgoing_at`.
    pub fn filter_serialised_outgoing_at(&mut self, msg: Option<&MessageWithBytes>, pub_id: &PublicId, now: u64) -> (res:
        FilteringResult)
        requires
            old(self).wf(),
        ensures
            final(self).wf(),
            final(self)@.valid(),
            match msg {
                Some(m) => res == old(self)@.outgoing_verdict(m.dst_spec(), outgoing_key(m.hash_spec(), *pub_id), now)
                    && final(self)@ == old(self)@.after_outgoing(m.dst_spec(), outgoing_key(m.hash_spec(), *pub_id), now),
                None => res == FilteringResult::KnownMessage && final(self)@ == old(self)@,
            },
    {
        match msg {
            Some(m) => self.filter_outgoing_at(m, pub_id, now),
            None => FilteringResult::KnownMessage,
        }
    }

    /// Filters a message that is about to go to the peer `pub_id`, at the
    /// present reading of the machine's clock: `filter_outgoing_at` with that
    /// reading.
    pub fn filter_outgoing(&mut self, msg: &MessageWithBytes, pub_id: &PublicId) -> (res: FilteringResult)
        requires
            old(self).wf(),
        ensures
            final(self).wf(),
            final(self)@.valid(),
            exists|now: u64|
                res == #[trigger] old(self)@.outgoing_verdict(
                    msg.dst_spec(),
                    outgoing_key(msg.hash_spec(), *pub_id),
                    now,
                ) && final(self)@ == old(self)@.after_outgoing(
                    msg.dst_spec(),
                    outgoing_key(msg.hash_spec(), *pub_id),
                    now,
                ),
    {
        let now = self.now();
        self.filter_outgoing_at(msg, pub_id, now)
    }
}

impl Default for RoutingMessageFilter {
    fn default() -> (filter: RoutingMessageFilter)
        ensures
            filter.wf(),
            filter@.valid(),
            filter@.incoming.entries == Map::<Digest256, Seen>::empty(),
            filter@.incoming.time_to_live == incoming_ttl(),
            filter@.incoming.clock == 0,
            filter@.outgoing == Seq::<((u128, u128, u128, u128, u128, u128), u64)>::empty(),
    {
        RoutingMessageFilter::new()
    }
}

} // verus!
