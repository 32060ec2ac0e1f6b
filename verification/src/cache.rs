//! The least-recently-used cache of the `lru_time_cache` crate, as the
//! outgoing message filter uses it: bounded by a capacity, without an expiry
//! time of its own.
//!
//! Nothing in this module is proved. The contracts state what the source of
//! `lru_time_cache` shows of a cache made by `LruCache::with_capacity`: a
//! key of the cache is the digest of a message, the name of a peer and the
//! peer's key, each as two words.

use vstd::prelude::*;
use lru_time_cache::LruCache;

verus! {

/// `lru_time_cache::LruCache`, taken as it is: nothing of its inside is
/// known to the proofs but what the two functions below say of it.
#[verifier::external_type_specification]
#[verifier::external_body]
#[verifier::reject_recursive_types(Key)]
#[verifier::reject_recursive_types(Value)]
pub struct ExLruCache<Key, Value>(LruCache<Key, Value>);

/// The entries of the cache, each a key and its value, from the least
/// recently used to the most recently used.
pub uninterp spec fn cache_entries(cache: LruCache<(u128, u128, u128, u128, u128, u128), u64>) -> Seq<((u128, u128, u128, u128, u128, u128), u64)>;

/// The capacity that the cache was made with.
pub uninterp spec fn cache_capacity(cache: LruCache<(u128, u128, u128, u128, u128, u128), u64>) -> nat;

/// The cache was made with an expiry time, after which it drops an entry by
/// itself.
pub uninterp spec fn cache_expires(cache: LruCache<(u128, u128, u128, u128, u128, u128), u64>) -> bool;

/// The position of `key` among `entries`, if it is there.
pub open spec fn entry_index(entries: Seq<((u128, u128, u128, u128, u128, u128), u64)>, key: (u128, u128, u128, u128, u128, u128)) -> Option<int> {
    if exists|i: int| 0 <= i < entries.len() && (#[trigger] entries[i]).0 == key {
        Some(choose|i: int| 0 <= i < entries.len() && (#[trigger] entries[i]).0 == key)
    } else {
        None
    }
}

/// The entries after `key` was entered with `value` into a cache of the given capacity.
pub open spec fn entries_after_insert(
    entries: Seq<((u128, u128, u128, u128, u128, u128), u64)>,
    capacity: nat,
    key: (u128, u128, u128, u128, u128, u128),
    value: u64,
) -> Seq<((u128, u128, u128, u128, u128, u128), u64)> {
    match entry_index(entries, key) {
        Some(i) => entries.remove(i).push((key, value)),
        None => if entries.len() >= capacity {
            entries.skip(entries.len() - capacity + 1).push((key, value))
        } else {
            entries.push((key, value))
        },
    }
}

/// No key occurs twice among `entries`.
pub open spec fn keys_distinct(entries: Seq<((u128, u128, u128, u128, u128, u128), u64)>) -> bool {
    forall|i: int, j: int|
        0 <= i < entries.len() && 0 <= j < entries.len() && i != j ==> (#[trigger] entries[i]).0 != (#[trigger] entries[j]).0
}

/// `LruCache::with_capacity`: makes an empty cache that holds at most
/// `capacity` entries and has no expiry time. The upper bound on `capacity`
/// keeps the queue that the constructor allocates within what can be
/// allocated.
#[verifier::external_body]
pub(crate) fn cache_with_capacity(capacity: usize) -> (cache: LruCache<(u128, u128, u128, u128, u128, u128), u64>)
    requires
        1 <= capacity <= 0x1_0000,
    ensures
        cache_entries(cache) == Seq::<((u128, u128, u128, u128, u128, u128), u64)>::empty(),
        cache_capacity(cache) == capacity,
        !cache_expires(cache),
{
    LruCache::with_capacity(capacity)
}

/// `LruCache::insert`, on a cache without an expiry time: enters `value`
/// under `key` and makes the key the most recently used. The old value of a key that was there is
/// returned, and nothing leaves the cache; for a new key the least recently
/// used entries leave first, as many as are needed to stay within the
/// capacity. A cache of capacity 0 is left out: the call would panic on it.
#[verifier::external_body]
pub(crate) fn cache_insert(cache: &mut LruCache<(u128, u128, u128, u128, u128, u128), u64>, key: (u128, u128, u128, u128, u128, u128), value: u64) -> (prior: Option<u64>)
    requires
        cache_capacity(*old(cache)) >= 1,
        !cache_expires(*old(cache)),
    ensures
        cache_capacity(*final(cache)) == cache_capacity(*old(cache)),
        !cache_expires(*final(cache)),
        cache_entries(*final(cache)) == entries_after_insert(cache_entries(*old(cache)), cache_capacity(*old(cache)), key, value),
        prior == match entry_index(cache_entries(*old(cache)), key) {
            Some(i) => Some(cache_entries(*old(cache))[i].1),
            None => None,
        },
{
    cache.insert(key, value)
}

} // verus!
