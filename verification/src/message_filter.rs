//! A filter that remembers each key for a fixed time to live and counts how
//! often the key was entered while it was remembered.
//!
//! Time is a number of milliseconds on a monotonic clock that the caller
//! reads. The filter never goes back in time: a reading older than the
//! latest one it has seen counts as that latest one. Every insertion of a
//! key renews its entry: the entry is forgotten once more than the time to
//! live has passed since the key was last entered. Forgetting happens before
//! every insertion, and lookups pass over what is due to be forgotten.
//!
//! The mathematical model of a filter is a `FilterModel`: a map from the keys
//! it remembers to what it has seen of them, its time to live and its clock.

use vstd::prelude::*;
use crate::crypto::Digest256;

verus! {

/// What a filter remembers of a key: when the key was last entered, and how
/// often it was entered in the life of the entry.
#[derive(Clone, Copy, Debug, PartialEq, Eq, Structural)]
pub struct Seen {
    pub last_seen: u64,
    pub count: usize,
}

/// The count after one more insertion; it stays at the largest number once there.
pub open spec fn bumped(count: usize) -> usize {
    if count < usize::MAX {
        (count + 1) as usize
    } else {
        count
    }
}

/// The model of a filter.
pub struct FilterModel {
    pub entries: Map<Digest256, Seen>,
    pub time_to_live: u64,
    pub clock: u64,
}

impl FilterModel {
    /// The time at which an operation takes place that reads `now` from the clock.
    pub open spec fn at(self, now: u64) -> u64 {
        if now > self.clock {
            now
        } else {
            self.clock
        }
    }

    /// The key is remembered at time `t`: it was entered, and last entered
    /// no longer before `t` than the time to live.
    pub open spec fn is_live(self, key: Digest256, t: u64) -> bool {
        self.entries.contains_key(key) && t - self.entries[key].last_seen <= self.time_to_live
    }

    /// The entries that are live at time `t`.
    pub open spec fn live(self, t: u64) -> Map<Digest256, Seen> {
        Map::new(|k: Digest256| self.is_live(k, t), |k: Digest256| self.entries[k])
    }

    /// How often `key` was entered in its current life, as seen at the reading `now`.
    pub open spec fn count(self, key: Digest256, now: u64) -> usize {
        if self.is_live(key, self.at(now)) {
            self.entries[key].count
        } else {
            0
        }
    }

    /// What is remembered of `key` once it has been entered at the reading
    /// `now`: the time of this insertion, and one more than the count so
    /// far, or 1 where the key was not remembered.
    pub open spec fn seen_after(self, key: Digest256, now: u64) -> Seen {
        if self.is_live(key, self.at(now)) {
            Seen { last_seen: self.at(now), count: bumped(self.entries[key].count) }
        } else {
            Seen { last_seen: self.at(now), count: 1 }
        }
    }

    /// The filter after `key` was entered at the reading `now`.
    pub open spec fn insert(self, key: Digest256, now: u64) -> FilterModel {
        FilterModel {
            entries: self.live(self.at(now)).insert(key, self.seen_after(key, now)),
            time_to_live: self.time_to_live,
            clock: self.at(now),
        }
    }

    /// Nothing was entered after the filter's latest reading of the clock,
    /// and every remembered key was entered at least once.
    pub open spec fn valid(self) -> bool {
        forall|k: Digest256| #[trigger]
            self.entries.contains_key(k) ==> self.entries[k].last_seen <= self.clock && self.entries[k].count >= 1
    }

    /// The filter after the keys of `ops` were entered, each at its reading, in order.
    pub open spec fn insert_all(self, ops: Seq<(Digest256, u64)>) -> FilterModel
        decreases ops.len(),
    {
        if ops.len() == 0 {
            self
        } else {
            self.insert_all(ops.drop_last()).insert(ops.last().0, ops.last().1)
        }
    }
}

/// An insertion keeps a filter valid.
pub proof fn lemma_insert_valid(m: FilterModel, key: Digest256, now: u64)
    requires
        m.valid(),
    ensures
        m.insert(key, now).valid(),
        m.insert(key, now).time_to_live == m.time_to_live,
        m.insert(key, now).clock >= m.clock,
        m.insert(key, now).clock >= now,
{
}

/// A remembered key stays remembered while every reading of the clock is
/// within the time to live of the time it was last entered: it is not
/// entered any earlier afterwards, and its count does not go down.
pub proof fn lemma_remembered_within_ttl(m: FilterModel, key: Digest256, ops: Seq<(Digest256, u64)>)
    requires
        m.valid(),
        m.is_live(key, m.clock),
        forall|i: int| 0 <= i < ops.len() ==> (#[trigger] ops[i]).1 - m.entries[key].last_seen <= m.time_to_live,
    ensures
        m.insert_all(ops).valid(),
        m.insert_all(ops).time_to_live == m.time_to_live,
        m.insert_all(ops).is_live(key, m.insert_all(ops).clock),
        m.insert_all(ops).clock - m.entries[key].last_seen <= m.time_to_live,
        m.insert_all(ops).entries[key].last_seen >= m.entries[key].last_seen,
        m.insert_all(ops).entries[key].count >= m.entries[key].count,
    decreases ops.len(),
{
    if ops.len() > 0 {
        let head = ops.drop_last();
        lemma_remembered_within_ttl(m, key, head);
        let mid = m.insert_all(head);
        lemma_insert_valid(mid, ops.last().0, ops.last().1);
    }
}

/// The insertion of a key that is not remembered counts 1.
pub proof fn lemma_first_insertion_counts_one(m: FilterModel, key: Digest256, now: u64)
    requires
        !m.is_live(key, m.at(now)),
    ensures
        m.seen_after(key, now).count == 1,
{
}

/// An insertion of a key within the time to live of an earlier insertion of
/// it counts at least 2, whatever the filter held before the earlier one,
/// as long as every reading of the clock in between is within the time to
/// live of the earlier one too. The earlier insertion may be any insertion
/// of the key, the latest before this one in particular.
pub proof fn lemma_counted_within_ttl(m: FilterModel, key: Digest256, earlier: u64, ops: Seq<(Digest256, u64)>, again: u64)
    requires
        m.valid(),
        forall|i: int| 0 <= i < ops.len() ==> (#[trigger] ops[i]).1 - m.at(earlier) <= m.time_to_live,
        again - m.at(earlier) <= m.time_to_live,
    ensures
        m.insert(key, earlier).insert_all(ops).seen_after(key, again).count >= 2,
{
    let started = m.insert(key, earlier);
    lemma_insert_valid(m, key, earlier);
    lemma_remembered_within_ttl(started, key, ops);
}

/// An insertion renews the life of a key: once a key was entered, it is
/// remembered until the time to live has passed since then, however long
/// before that it was first entered.
pub proof fn lemma_insertion_renews(m: FilterModel, key: Digest256, now: u64, t: u64)
    requires
        m.valid(),
        t - m.at(now) <= m.time_to_live,
    ensures
        m.insert(key, now).entries[key].last_seen == m.at(now),
        m.insert(key, now).is_live(key, t),
{
}

/// Once more than the time to live has passed since a key was last entered,
/// its next insertion counts 1 again.
pub proof fn lemma_forgotten_after_ttl(m: FilterModel, key: Digest256, last: u64, again: u64)
    requires
        m.valid(),
        again - m.at(last) > m.time_to_live,
    ensures
        m.insert(key, last).seen_after(key, again).count == 1,
        !m.insert(key, last).is_live(key, m.insert(key, last).at(again)),
{
}

#[derive(Clone, Copy)]
struct FilterEntry {
    key: Digest256,
    seen: Seen,
}

spec fn has_key(entries: Seq<FilterEntry>, key: Digest256) -> bool {
    exists|i: int| 0 <= i < entries.len() && (#[trigger] entries[i]).key == key
}

spec fn index_of_key(entries: Seq<FilterEntry>, key: Digest256) -> int {
    choose|i: int| 0 <= i < entries.len() && (#[trigger] entries[i]).key == key
}

spec fn entries_map(entries: Seq<FilterEntry>) -> Map<Digest256, Seen> {
    Map::new(|k: Digest256| has_key(entries, k), |k: Digest256| entries[index_of_key(entries, k)].seen)
}

spec fn distinct_keys(entries: Seq<FilterEntry>) -> bool {
    forall|i: int, j: int|
        0 <= i < entries.len() && 0 <= j < entries.len() && i != j ==> (#[trigger] entries[i]).key != (
        #[trigger] entries[j]).key
}

/// The entry is one of the first `i` entries of `before` and is live at time `t`.
spec fn live_among(e: FilterEntry, before: Seq<FilterEntry>, i: int, t: u64, ttl: u64) -> bool {
    exists|m: int| 0 <= m < i && #[trigger] before[m] == e && t - before[m].seen.last_seen <= ttl
}

spec fn holds(entries: Seq<FilterEntry>, e: FilterEntry) -> bool {
    exists|j: int| 0 <= j < entries.len() && #[trigger] entries[j] == e
}

proof fn lemma_entry_in_map(entries: Seq<FilterEntry>, i: int)
    requires
        distinct_keys(entries),
        0 <= i < entries.len(),
    ensures
        entries_map(entries).contains_key(entries[i].key),
        entries_map(entries)[entries[i].key] == entries[i].seen,
{
}

/// A filter of message digests with a time to live.
pub struct MessageFilter {
    entries: Vec<FilterEntry>,
    time_to_live: u64,
    clock: u64,
}

impl View for MessageFilter {
    type V = FilterModel;

    closed spec fn view(&self) -> FilterModel {
        FilterModel { entries: entries_map(self.entries@), time_to_live: self.time_to_live, clock: self.clock }
    }
}

impl MessageFilter {
    #[verifier::type_invariant]
    spec fn inv(self) -> bool {
        &&& distinct_keys(self.entries@)
        &&& forall|i: int|
            0 <= i < self.entries@.len() ==> (#[trigger] self.entries@[i]).seen.last_seen <= self.clock
                && self.entries@[i].seen.count >= 1
    }

    /// Creates an empty filter whose entries live for `time_to_live` milliseconds.
    pub fn with_expiry_duration(time_to_live: u64) -> (filter: MessageFilter)
        ensures
            filter@.entries == Map::<Digest256, Seen>::empty(),
            filter@.time_to_live == time_to_live,
            filter@.clock == 0,
            filter@.valid(),
    {
        MessageFilter { entries: Vec::new(), time_to_live, clock: 0 }
    }

    /// Returns the time to live of the entries, in milliseconds.
    pub fn time_to_live(&self) -> (ttl: u64)
        ensures
            ttl == self@.time_to_live,
    {
        self.time_to_live
    }

    /// Returns the position of the live entry of `key` at time `t`, if there is one.
    fn position(&self, key: &Digest256, t: u64) -> (found: Option<usize>)
        requires
            t >= self.clock,
        ensures
            self@.valid(),
            match found {
                Some(i) => i < self.entries@.len() && self.entries@[i as int].key == *key && self@.is_live(*key, t)
                    && self.entries@[i as int].seen == self@.entries[*key],
                None => !self@.is_live(*key, t),
            },
    {
        proof {
            use_type_invariant(self);
            self.lemma_valid();
        }
        let mut i: usize = 0;
        while i < self.entries.len()
            invariant
                i <= self.entries@.len(),
                distinct_keys(self.entries@),
                forall|j: int| 0 <= j < i ==> (#[trigger] self.entries@[j]).key != *key,
                forall|j: int| 0 <= j < self.entries@.len() ==> (#[trigger] self.entries@[j]).seen.last_seen <= self.clock,
                t >= self.clock,
                self@.valid(),
            decreases self.entries@.len() - i,
        {
            let e = self.entries[i];
            if e.key == *key {
                proof {
                    lemma_entry_in_map(self.entries@, i as int);
                }
                if t - e.seen.last_seen <= self.time_to_live {
                    return Some(i);
                } else {
                    return None;
                }
            }
            i = i + 1;
        }
        None
    }

    proof fn lemma_valid(self)
        requires
            self.inv(),
        ensures
            self@.valid(),
    {
        assert forall|k: Digest256| #[trigger] self@.entries.contains_key(k) implies self@.entries[k].last_seen
            <= self@.clock && self@.entries[k].count >= 1 by {
        }
    }

    /// Returns how often `key` was entered in its current life, or 0 if it is
    /// not remembered at the reading `now`.
    pub fn count(&self, key: &Digest256, now: u64) -> (n: usize)
        ensures
            n == self@.count(*key, now),
            self@.valid(),
    {
        let t: u64 = if now > self.clock { now } else { self.clock };
        match self.position(key, t) {
            Some(i) => self.entries[i].seen.count,
            None => 0,
        }
    }

    /// Returns whether `key` is remembered at the reading `now`.
    pub fn contains(&self, key: &Digest256, now: u64) -> (b: bool)
        ensures
            b == self@.is_live(*key, self@.at(now)),
            self@.valid(),
    {
        let t: u64 = if now > self.clock { now } else { self.clock };
        self.position(key, t).is_some()
    }

    /// Forgets every entry.
    pub fn clear(&mut self)
        ensures
            final(self)@.entries == Map::<Digest256, Seen>::empty(),
            final(self)@.time_to_live == old(self)@.time_to_live,
            final(self)@.clock == old(self)@.clock,
    {
        self.entries = Vec::new();
    }

    /// Enters `key` at the reading `now` and returns how often it has been
    /// entered in its current life, this time included. Entries that were
    /// last entered longer ago than the time to live are forgotten first, so
    /// a key whose life has ended starts a new one with the count 1. The
    /// life of the entry is counted anew from this insertion.
    pub fn insert(&mut self, key: &Digest256, now: u64) -> (n: usize)
        ensures
            final(self)@ == old(self)@.insert(*key, now),
            n == old(self)@.seen_after(*key, now).count,
            old(self)@.valid(),
            final(self)@.valid(),
    {
        proof {
            use_type_invariant(&*self);
            self.lemma_valid();
        }
        let t: u64 = if now > self.clock { now } else { self.clock };
        let ttl: u64 = self.time_to_live;
        let ghost before = self.entries@;
        let ghost model = self@;
        let mut kept: Vec<FilterEntry> = Vec::new();
        let mut seen = Seen { last_seen: t, count: 1 };
        let ghost mut found = false;
        let mut i: usize = 0;
        while i < self.entries.len()
            invariant
                i <= before.len(),
                self.entries@ == before,
                distinct_keys(before),
                forall|j: int| 0 <= j < before.len() ==> (#[trigger] before[j]).seen.last_seen <= t && before[j].seen.count >= 1,
                distinct_keys(kept@),
                forall|j: int| 0 <= j < kept@.len() ==> (#[trigger] kept@[j]).key != *key,
                forall|j: int| 0 <= j < kept@.len() ==> live_among(#[trigger] kept@[j], before, i as int, t, ttl),
                forall|m: int|
                    0 <= m < i && (#[trigger] before[m]).key != *key && t - before[m].seen.last_seen <= ttl
                        ==> holds(kept@, before[m]),
                found == exists|m: int|
                    0 <= m < i && (#[trigger] before[m]).key == *key && t - before[m].seen.last_seen <= ttl,
                found ==> exists|m: int|
                    0 <= m < i && (#[trigger] before[m]).key == *key && seen == (Seen {
                        last_seen: t,
                        count: bumped(before[m].seen.count),
                    }),
                !found ==> seen == (Seen { last_seen: t, count: 1 }),
                seen.last_seen <= t,
                seen.count >= 1,
                forall|j: int| 0 <= j < kept@.len() ==> (#[trigger] kept@[j]).seen.last_seen <= t && kept@[j].seen.count >= 1,
            decreases before.len() - i,
        {
            let e = self.entries[i];
            let live: bool = t - e.seen.last_seen <= ttl;
            let ghost kept_old = kept@;
            if live && e.key == *key {
                let count: usize = if e.seen.count < usize::MAX { e.seen.count + 1 } else { e.seen.count };
                seen = Seen { last_seen: t, count };
                proof {
                    found = true;
                }
            } else if live {
                proof {
                    assert forall|j: int| 0 <= j < kept_old.len() implies (#[trigger] kept_old[j]).key != e.key by {
                        let m = choose|m: int|
                            0 <= m < i && #[trigger] before[m] == kept_old[j] && t - before[m].seen.last_seen <= ttl;
                        assert(before[m].key != before[i as int].key);
                    }
                }
                kept.push(e);
            }
            proof {
                assert forall|m: int|
                    0 <= m < i + 1 && (#[trigger] before[m]).key != *key && t - before[m].seen.last_seen
                        <= ttl implies holds(kept@, before[m]) by {
                    if m < i {
                        let j = choose|j: int| 0 <= j < kept_old.len() && #[trigger] kept_old[j] == before[m];
                        assert(kept@[j] == before[m]);
                    } else {
                        assert(kept@[kept_old.len() as int] == before[m]);
                    }
                }
                assert forall|j: int| 0 <= j < kept@.len() implies live_among(#[trigger] kept@[j], before, i + 1, t, ttl) by {
                    if j < kept_old.len() {
                        let m = choose|m: int|
                            0 <= m < i && #[trigger] before[m] == kept_old[j] && t - before[m].seen.last_seen <= ttl;
                        assert(before[m] == kept@[j]);
                    }
                }
            }
            i = i + 1;
        }
        let ghost live_kept = kept@;
        kept.push(FilterEntry { key: *key, seen });
        assert(kept@.drop_last() =~= live_kept);
        self.clock = t;
        self.entries = kept;
        proof {
            let after = self.entries@;
            let last = after.len() - 1;
            let expected = model.insert(*key, now);
            assert(found == model.is_live(*key, t)) by {
                if found {
                    let m = choose|m: int|
                        0 <= m < before.len() && (#[trigger] before[m]).key == *key && t - before[m].seen.last_seen
                            <= ttl;
                    lemma_entry_in_map(before, m);
                }
                if model.is_live(*key, t) {
                    let m = index_of_key(before, *key);
                    lemma_entry_in_map(before, m);
                }
            }
            assert(seen == model.seen_after(*key, now)) by {
                if found {
                    let m = choose|m: int|
                        0 <= m < before.len() && (#[trigger] before[m]).key == *key && seen == (Seen {
                            last_seen: t,
                            count: bumped(before[m].seen.count),
                        });
                    lemma_entry_in_map(before, m);
                }
            }
            assert forall|k: Digest256| #[trigger] expected.entries.contains_key(k) implies self@.entries.contains_key(k)
                && self@.entries[k] == expected.entries[k] by {
                if k == *key {
                    lemma_entry_in_map(after, last);
                } else {
                    let m = index_of_key(before, k);
                    lemma_entry_in_map(before, m);
                    let j = choose|j: int| 0 <= j < last && #[trigger] after.drop_last()[j] == before[m];
                    lemma_entry_in_map(after, j);
                }
            }
            assert forall|k: Digest256| #[trigger] self@.entries.contains_key(k) implies expected.entries.contains_key(k) by {
                if k != *key {
                    let j = index_of_key(after, k);
                    let m = choose|m: int|
                        0 <= m < before.len() && #[trigger] before[m] == after[j] && t - before[m].seen.last_seen
                            <= ttl;
                    lemma_entry_in_map(before, m);
                }
            }
            assert(self@.entries =~= expected.entries);
            self.lemma_valid();
        }
        seen.count
    }
}

} // verus!
