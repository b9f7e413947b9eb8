//! The least-recently-used cache of `lru`, holding slot numbers.

use vstd::prelude::*;

verus! {

#[verifier::external_type_specification]
#[verifier::external_body]
#[verifier::reject_recursive_types(K)]
#[verifier::reject_recursive_types(V)]
#[verifier::reject_recursive_types(S)]
pub struct ExLruCache<K, V, S>(lru::LruCache<K, V, S>);

#[verifier::external_type_specification]
#[verifier::external_body]
pub struct ExLruHasher(lru::DefaultHasher);

/// A cache of slot numbers.
pub type SlotCache = lru::LruCache<u64, ()>;

/// The keys of a cache, the most recently used first.
pub uninterp spec fn lru_keys(cache: SlotCache) -> Seq<u64>;

/// The number of keys that a cache was made to hold.
pub uninterp spec fn lru_capacity(cache: SlotCache) -> nat;

/// The keys after `key` was put in: `key` first, the others in the order they had, and without
/// the last one where there was no room left.
pub open spec fn keys_after_put(keys: Seq<u64>, capacity: nat, key: u64) -> Seq<u64> {
    if keys.contains(key) {
        seq![key] + keys.remove(keys.index_of(key))
    } else if keys.len() == capacity {
        seq![key] + keys.drop_last()
    } else {
        seq![key] + keys
    }
}

/// `LruCache::new`: a cache without keys. It reserves memory for all its keys at once and panics
/// where that is too much to ask for, which a million is not.
#[verifier::external_body]
pub(crate) fn lru_new(capacity: usize) -> (cache: SlotCache)
    requires
        0 < capacity <= 1_000_000,
    ensures
        lru_keys(cache).len() == 0,
        lru_capacity(cache) == capacity,
{
    lru::LruCache::new(std::num::NonZeroUsize::new(capacity).expect("capacity is not zero"))
}

/// `LruCache::contains`: whether a key is there. Leaves the order as it is.
#[verifier::external_body]
pub(crate) fn lru_contains(cache: &SlotCache, key: u64) -> (found: bool)
    ensures
        found == lru_keys(*cache).contains(key),
{
    cache.contains(&key)
}

/// `LruCache::put`: the key becomes the most recently used; a full cache drops the least recently
/// used one for a new key.
#[verifier::external_body]
pub(crate) fn lru_put(cache: &mut SlotCache, key: u64)
    ensures
        lru_keys(*final(cache)) == keys_after_put(
            lru_keys(*old(cache)),
            lru_capacity(*old(cache)),
            key,
        ),
        lru_capacity(*final(cache)) == lru_capacity(*old(cache)),
{
    cache.put(key, ());
}

} // verus!
