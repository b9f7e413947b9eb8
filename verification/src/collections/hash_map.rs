//! Maps hashed by `ahash`, keyed by slot numbers and by block hashes.

use crate::primitives::bytes::B256;
use vstd::prelude::*;

verus! {

#[verifier::external_type_specification]
#[verifier::external_body]
pub struct ExRandomState(ahash::RandomState);

/// A map keyed by numbers.
pub type NumberMap<V> = std::collections::HashMap<u64, V, ahash::RandomState>;

/// A map keyed by hashes.
pub type HashKeyedMap<V> = std::collections::HashMap<B256, V, ahash::RandomState>;

/// `HashMap::default`: a map without entries.
#[verifier::external_body]
pub(crate) fn number_map_new<V>() -> (map: NumberMap<V>)
    ensures
        (map@ == Map::<u64, V>::empty()),
{
    ahash::HashMap::default()
}

/// `HashMap::get`: the value under a key, if it has one.
#[verifier::external_body]
pub(crate) fn number_map_get<V>(map: &NumberMap<V>, key: u64) -> (value: Option<&V>)
    ensures
        value is Some <==> map@.contains_key(key),
        value matches Some(v) ==> *v == map@[key],
{
    map.get(&key)
}

/// `HashMap::insert`: the key then has the value; what it had before is returned.
#[verifier::external_body]
pub(crate) fn number_map_insert<V>(map: &mut NumberMap<V>, key: u64, value: V) -> (previous: Option<
    V,
>)
    ensures
        final(map)@ == old(map)@.insert(key, value),
        previous is Some <==> old(map)@.contains_key(key),
        previous matches Some(v) ==> v == old(map)@[key],
{
    map.insert(key, value)
}

/// `HashMap::remove`: the key then has no value; what it had before is returned.
#[verifier::external_body]
pub(crate) fn number_map_remove<V>(map: &mut NumberMap<V>, key: u64) -> (previous: Option<V>)
    ensures
        final(map)@ == old(map)@.remove(key),
        previous is Some <==> old(map)@.contains_key(key),
        previous matches Some(v) ==> v == old(map)@[key],
{
    map.remove(&key)
}

/// `HashMap::keys`: every key once, in no particular order.
#[verifier::external_body]
pub(crate) fn number_map_keys<V>(map: &NumberMap<V>) -> (keys: Vec<u64>)
    ensures
        keys@.no_duplicates(),
        forall|k: u64| keys@.contains(k) <==> map@.contains_key(k),
{
    map.keys().copied().collect()
}

/// `HashMap::default`: a map without entries.
#[verifier::external_body]
pub(crate) fn hash_keyed_map_new<V>() -> (map: HashKeyedMap<V>)
    ensures
        (map@ == Map::<B256, V>::empty()),
{
    ahash::HashMap::default()
}

/// `HashMap::get`: the value under a key, if it has one.
#[verifier::external_body]
pub(crate) fn hash_keyed_map_get<V>(map: &HashKeyedMap<V>, key: B256) -> (value: Option<&V>)
    ensures
        value is Some <==> map@.contains_key(key),
        value matches Some(v) ==> *v == map@[key],
{
    map.get(&key)
}

/// `HashMap::insert`: the key then has the value; what it had before is returned.
#[verifier::external_body]
pub(crate) fn hash_keyed_map_insert<V>(
    map: &mut HashKeyedMap<V>,
    key: B256,
    value: V,
) -> (previous: Option<V>)
    ensures
        final(map)@ == old(map)@.insert(key, value),
        previous is Some <==> old(map)@.contains_key(key),
        previous matches Some(v) ==> v == old(map)@[key],
{
    map.insert(key, value)
}

/// `HashMap::remove`: the key then has no value; what it had before is returned.
#[verifier::external_body]
pub(crate) fn hash_keyed_map_remove<V>(map: &mut HashKeyedMap<V>, key: B256) -> (previous: Option<V>)
    ensures
        final(map)@ == old(map)@.remove(key),
        previous is Some <==> old(map)@.contains_key(key),
        previous matches Some(v) ==> v == old(map)@[key],
{
    map.remove(&key)
}

/// `HashMap::keys`: every key once, in no particular order.
#[verifier::external_body]
pub(crate) fn hash_keyed_map_keys<V>(map: &HashKeyedMap<V>) -> (keys: Vec<B256>)
    ensures
        keys@.no_duplicates(),
        forall|k: B256| keys@.contains(k) <==> map@.contains_key(k),
{
    map.keys().copied().collect()
}

} // verus!
