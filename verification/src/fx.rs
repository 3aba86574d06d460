//! The Fx hash collections that the compiler keys its tables with.
//!
//! `fxhash::FxHashSet` and `rustc_hash::FxHashMap` are the std `HashSet` and
//! `HashMap` built with a `BuildHasherDefault` of the crate's `FxHasher`.
//! That hasher starts from zero and folds in each word it is given with a
//! fixed rotate-xor-multiply step, so equal keys always hash equally; the std
//! collections then behave as sets and maps of their keys. The functions below
//! each make one std call on such a collection and state that behaviour over
//! the collection's view (`Set` or `Map` of its keys).
use std::hash::BuildHasherDefault;
use vstd::prelude::*;

use fxhash::FxHashSet;
use rustc_hash::FxHashMap;

verus! {

#[verifier::external_type_specification]
#[verifier::external_body]
#[verifier::reject_recursive_types(H)]
pub struct ExBuildHasherDefault<H>(BuildHasherDefault<H>);

#[verifier::external_type_specification]
#[verifier::external_body]
pub struct ExFxHasher(fxhash::FxHasher);

#[verifier::external_type_specification]
#[verifier::external_body]
pub struct ExRustcFxHasher(rustc_hash::FxHasher);

/// `HashSet::insert` on an `fxhash::FxHashSet`: adds `value` and says
/// whether it was missing before.
#[verifier::external_body]
pub(crate) fn fx_set_insert(set: &mut FxHashSet<u32>, value: u32) -> (newly_added: bool)
    ensures
        final(set)@ == old(set)@.insert(value),
        newly_added == !old(set)@.contains(value),
{
    set.insert(value)
}

/// `HashSet::remove` on an `fxhash::FxHashSet`: takes `value` out and says
/// whether it was there.
#[verifier::external_body]
pub(crate) fn fx_set_remove(set: &mut FxHashSet<u32>, value: &u32) -> (was_present: bool)
    ensures
        final(set)@ == old(set)@.remove(*value),
        was_present == old(set)@.contains(*value),
{
    set.remove(value)
}

/// `HashSet::contains` on an `fxhash::FxHashSet`.
#[verifier::external_body]
pub(crate) fn fx_set_contains(set: &FxHashSet<u32>, value: &u32) -> (present: bool)
    ensures
        present == set@.contains(*value),
{
    set.contains(value)
}

/// `HashSet::iter` on an `fxhash::FxHashSet`, collected: every element once,
/// in the order in which the table is walked, which this contract leaves open.
#[verifier::external_body]
pub(crate) fn fx_set_elements(set: &FxHashSet<u32>) -> (elements: Vec<u32>)
    ensures
        elements@.no_duplicates(),
        elements@.to_set() == set@,
{
    set.iter().copied().collect()
}

/// Whether `key` is a key of `m` (keys are compared by their characters).
pub open spec fn has_str_key<V>(m: Map<String, V>, key: Seq<char>) -> bool {
    exists|k: String| #[trigger] m.contains_key(k) && k@ == key
}

/// `HashMap::get` on a `rustc_hash::FxHashMap` keyed by strings, looked up
/// with a `&str`: the value of the key with the same characters, if any.
#[verifier::external_body]
pub(crate) fn fx_map_get<'a, V>(m: &'a FxHashMap<String, V>, key: &str) -> (r: Option<&'a V>)
    ensures
        r is Some <==> has_str_key(m@, key@),
        r matches Some(v) ==> exists|k: String|
            #[trigger] m@.contains_key(k) && k@ == key@ && m@[k] == *v,
{
    m.get(key)
}

} // verus!
