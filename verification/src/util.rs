//! Hashing helpers shared by the address-keyed store.

use std::collections::hash_map::DefaultHasher;
use std::hash::{Hash, Hasher};

use vstd::prelude::*;

verus! {

/// The value that the standard `DefaultHasher` produces for a string with
/// these characters.  The algorithm is deterministic but far too involved to
/// state, so only the name is shared between the trusted hash wrappers and
/// the contracts of the address-keyed store.
pub uninterp spec fn hash_of(s: Seq<char>) -> u64;

/// Relies on `std::collections::hash_map::DefaultHasher`: `DefaultHasher::new`
/// always builds the same hasher, so the digest is a function of the hashed
/// value alone.
#[verifier::external_body]
pub fn calc_hash<T: Hash>(t: &T) -> u64 {
    let mut s = DefaultHasher::new();
    t.hash(&mut s);
    s.finish()
}

/// Relies on `std::collections::hash_map::DefaultHasher`, as [`calc_hash`]
/// does; for a string the digest depends on its characters alone, which is
/// what [`hash_of`] names.
#[verifier::external_body]
pub(crate) fn hash_string(t: &String) -> (r: u64)
    ensures
        r == hash_of(t@),
{
    let mut s = DefaultHasher::new();
    t.hash(&mut s);
    s.finish()
}

} // verus!
