//! The hash tables of the scene: `fnv::FnvHashMap` with integer keys.
//!
//! vstd states what `HashMap` does only for hashers that it knows to give
//! equal digests for equal input. The hasher of `fnv` does so, since it
//! starts from a fixed basis and folds in the bytes it is given, but Verus
//! has not read it. The functions below therefore state of each call what
//! the standard library documents of it, and Verus takes their word.

use vstd::prelude::*;
use fnv::{FnvHashMap, FnvHasher};
use std::hash::BuildHasherDefault;

verus! {

/// The hasher of the `fnv` crate. Nothing is stated of it: the tables below
/// only name it in their type.
#[verifier::external_type_specification]
#[verifier::external_body]
pub struct ExFnvHasher(FnvHasher);

/// `std::hash::BuildHasherDefault`, which makes a hasher by `Default`.
/// Nothing is stated of it either.
#[verifier::external_type_specification]
#[verifier::external_body]
#[verifier::reject_recursive_types(H)]
pub struct ExBuildHasherDefault<H>(BuildHasherDefault<H>);

/// A table with no entry.
pub(crate) fn empty<V>() -> (table: FnvHashMap<u64, V>)
    ensures
        table@ == Map::<u64, V>::empty(),
{
    FnvHashMap::default()
}

/// `HashMap::insert` on a `fnv::FnvHashMap` with integer keys: `key` maps to
/// `value` afterwards, every other key is as before, and the value that `key`
/// had, if any, comes back.
#[verifier::external_body]
pub(crate) fn insert<V>(table: &mut FnvHashMap<u64, V>, key: u64, value: V) -> (displaced: Option<V>)
    ensures
        final(table)@ == old(table)@.insert(key, value),
        displaced == (if old(table)@.contains_key(key) {
            Some(old(table)@[key])
        } else {
            None
        }),
{
    table.insert(key, value)
}

/// `HashMap::remove` on a `fnv::FnvHashMap` with integer keys: `key` is
/// absent afterwards, every other key is as before, and the value that `key`
/// had, if any, comes back.
#[verifier::external_body]
pub(crate) fn remove<V>(table: &mut FnvHashMap<u64, V>, key: u64) -> (taken: Option<V>)
    ensures
        final(table)@ == old(table)@.remove(key),
        taken == (if old(table)@.contains_key(key) {
            Some(old(table)@[key])
        } else {
            None
        }),
{
    table.remove(&key)
}

/// `HashMap::get` on a `fnv::FnvHashMap` with integer keys: the value under
/// `key`, if the table has one.
#[verifier::external_body]
pub(crate) fn get<V>(table: &FnvHashMap<u64, V>, key: u64) -> (found: Option<&V>)
    ensures
        found == (if table@.contains_key(key) {
            Some(&table@[key])
        } else {
            None
        }),
{
    table.get(&key)
}

/// `HashMap::keys` on a `fnv::FnvHashMap` with integer keys, copied into a
/// vector: every key of the table once, in an order that is not stated.
#[verifier::external_body]
pub(crate) fn keys<V>(table: &FnvHashMap<u64, V>) -> (all: Vec<u64>)
    ensures
        all@.no_duplicates(),
        all@.to_set() == table@.dom(),
{
    table.keys().copied().collect()
}

} // verus!
