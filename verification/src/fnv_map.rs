//! FNV-hashed maps keyed by the codes of kinds.
//!
//! The maps are `std`'s hash maps with the hasher of the `fnv` crate. What
//! this module says of them is taken on trust; everything else in the
//! library is proved from it.

use fnv::FnvHashMap;
use vstd::prelude::*;

verus! {

/// `fnv::FnvHasher`, the state of one FNV-1a hash computation. Nothing is
/// claimed of its contents.
#[verifier::external_type_specification]
#[verifier::external_body]
pub struct ExFnvHasher(fnv::FnvHasher);

/// `core::hash::BuildHasherDefault`, which makes hashers by `Default`.
/// Nothing is claimed of its contents.
#[verifier::external_type_specification]
#[verifier::external_body]
#[verifier::reject_recursive_types(H)]
pub struct ExBuildHasherDefault<H>(core::hash::BuildHasherDefault<H>);

/// `HashMap::insert` on an `FnvHashMap` with integer keys: afterwards the
/// map holds `value` under `key` and is otherwise as before, and the value
/// that `key` had, if any, is returned. This rests on the FNV hasher giving
/// equal hashes to equal keys, which it does, being a function of the bytes
/// written to it.
#[verifier::external_body]
pub(crate) fn map_insert<V>(m: &mut FnvHashMap<u32, V>, key: u32, value: V) -> (prev: Option<V>)
    ensures
        final(m)@ == old(m)@.insert(key, value),
        prev == (if old(m)@.contains_key(key) {
            Some(old(m)@[key])
        } else {
            None
        }),
{
    m.insert(key, value)
}

/// `HashMap::get` on an `FnvHashMap` with integer keys: the value held
/// under `key`, or nothing where the map holds none.
#[verifier::external_body]
pub(crate) fn map_get<'a, V>(m: &'a FnvHashMap<u32, V>, key: u32) -> (found: Option<&'a V>)
    ensures
        found == (if m@.contains_key(key) {
            Some(&m@[key])
        } else {
            None
        }),
{
    m.get(&key)
}

} // verus!
