//! The keys of a hash map as a list, so that a rule can visit every entry.
use std::collections::HashMap;
use vstd::prelude::*;
use vstd::std_specs::hash::*;
use vstd::std_specs::iter::IteratorSpec;

use crate::geometry::WinID;

verus! {

/// Every key of a map by number, in no particular order.
pub fn keys_of<V>(map: &HashMap<u64, V>) -> (keys: Vec<u64>)
    ensures
        keys@.to_set() == map@.dom(),
{
    broadcast use vstd::std_specs::hash::group_hash_axioms;

    let mut keys: Vec<u64> = Vec::new();
    for key in iter: map.keys()
        invariant
            iter.seq() == spec_keys_iter(map).remaining(),
            keys@ == iter.seq().unref().take(iter.index() as int),
    {
        keys.push(*key);
        assert(iter.seq().unref().take(iter.index() as int + 1) =~= iter.seq().unref().take(
            iter.index() as int,
        ).push(*key));
    }
    assert(keys@ =~= spec_keys_iter(map).remaining().unref());
    keys
}

/// Every key of a map by window number, in no particular order.
pub fn windows_of<V>(map: &HashMap<WinID, V>) -> (keys: Vec<WinID>)
    ensures
        keys@.to_set() == map@.dom(),
{
    broadcast use vstd::std_specs::hash::group_hash_axioms;

    let mut keys: Vec<WinID> = Vec::new();
    for key in iter: map.keys()
        invariant
            iter.seq() == spec_keys_iter(map).remaining(),
            keys@ == iter.seq().unref().take(iter.index() as int),
    {
        keys.push(*key);
        assert(iter.seq().unref().take(iter.index() as int + 1) =~= iter.seq().unref().take(
            iter.index() as int,
        ).push(*key));
    }
    assert(keys@ =~= spec_keys_iter(map).remaining().unref());
    keys
}

} // verus!
