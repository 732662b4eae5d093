//! Trusted access to rustc_hash's `FxHashSet` and `FxHashMap`, keyed by machine integers.

use vstd::prelude::*;
use rustc_hash::{FxBuildHasher, FxHashMap, FxHashSet};

verus! {

// ============================================================================
// rustc_hash collections
// ============================================================================

/// rustc_hash's hasher builder, which makes `FxHashSet` and `FxHashMap`.
#[verifier::external_type_specification]
#[verifier::external_body]
pub struct ExFxBuildHasher(FxBuildHasher);

/// The keys of the `FxHashSet`s used here: machine integers, whose hashing and equality
/// agree.
pub trait FxKey: core::hash::Hash + Eq + Copy {

}

impl FxKey for u32 {

}

impl FxKey for usize {

}

/// `HashSet::insert` on an `FxHashSet` of integers. Every hasher that `FxBuildHasher`
/// builds starts from the same fixed state, so equal keys hash equally and the set acts
/// as a set: the value is added, and the result says whether it was absent before.
#[verifier::external_body]
pub(crate) fn fx_set_insert<K: FxKey>(set: &mut FxHashSet<K>, value: K) -> (added: bool)
    ensures
        final(set)@ == old(set)@.insert(value),
        added == !old(set)@.contains(value),
{
    set.insert(value)
}

/// `HashSet::contains` on an `FxHashSet` of integers: whether the value is in the set.
#[verifier::external_body]
pub(crate) fn fx_set_contains<K: FxKey>(set: &FxHashSet<K>, value: K) -> (found: bool)
    ensures
        found == set@.contains(value),
{
    set.contains(&value)
}

/// `HashMap::insert` on an `FxHashMap`: the key now maps to the value, and the result is
/// the value it mapped to before, if any.
#[verifier::external_body]
pub(crate) fn fx_map_insert<V>(map: &mut FxHashMap<u32, V>, key: u32, value: V) -> (previous: Option<V>)
    ensures
        final(map)@ == old(map)@.insert(key, value),
        match previous {
            Some(v) => old(map)@.contains_key(key) && v == old(map)@[key],
            None => !old(map)@.contains_key(key),
        },
{
    map.insert(key, value)
}

/// `HashMap::get` on an `FxHashMap`: the value the key maps to, if any.
#[verifier::external_body]
pub(crate) fn fx_map_get<V>(map: &FxHashMap<u32, V>, key: u32) -> (r: Option<&V>)
    ensures
        match r {
            Some(v) => map@.contains_key(key) && *v == map@[key],
            None => !map@.contains_key(key),
        },
{
    map.get(&key)
}

/// `HashMap::contains_key` on an `FxHashMap`: whether the key is mapped.
#[verifier::external_body]
pub(crate) fn fx_map_contains_key<V>(map: &FxHashMap<u32, V>, key: u32) -> (found: bool)
    ensures
        found == map@.contains_key(key),
{
    map.contains_key(&key)
}

/// `HashMap::clear` on an `FxHashMap`: no key is mapped afterwards.
#[verifier::external_body]
pub(crate) fn fx_map_clear<V>(map: &mut FxHashMap<u32, V>)
    ensures
        final(map)@ == old(map)@.remove_keys(old(map)@.dom()),
{
    map.clear()
}

/// `HashMap::len` on an `FxHashMap`: the number of mapped keys.
#[verifier::external_body]
pub(crate) fn fx_map_len<V>(map: &FxHashMap<u32, V>) -> (n: usize)
    ensures
        n == map@.len(),
{
    map.len()
}

} // verus!
