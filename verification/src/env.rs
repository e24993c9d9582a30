//! The variable store: a mutable map from variable id to value, with an
//! implicit default of 0 for every id that was never written.
//!
//! Stores are never shared across call boundaries: each function invocation
//! owns a brand-new, empty store, and the root of a run owns its own.  No
//! operation removes a binding; a store is dropped wholesale with its frame.

use std::collections::HashMap;
use vstd::prelude::*;

verus! {

broadcast use vstd::std_specs::hash::group_hash_axioms;

/// What a read of `id` yields in the abstract store `m`: the stored value,
/// or 0 when `id` was never written.  Reads never fail.
pub open spec fn lookup(m: Map<u64, i64>, id: u64) -> i64 {
    if m.dom().contains(id) {
        m[id]
    } else {
        0
    }
}

/// The mutable store mapping variable ids to values.  Its abstract value is
/// the map of ids written so far; [`lookup`] reads it with the 0 default.
#[derive(Debug)]
pub struct Environment {
    map: HashMap<u64, i64>,
}

impl View for Environment {
    type V = Map<u64, i64>;

    closed spec fn view(&self) -> Map<u64, i64> {
        self.map@
    }
}

impl Environment {
    /// A new, empty store: the root store of a run, and the store each
    /// function invocation starts from.
    pub fn fresh() -> (e: Environment)
        ensures
            e@ == Map::<u64, i64>::empty(),
    {
        Environment { map: HashMap::new() }
    }

    /// Returns the value stored at `id`, or 0 when `id` was never written.
    pub fn get(&self, id: u64) -> (v: i64)
        ensures
            v == lookup(self@, id),
    {
        match self.map.get(&id) {
            Some(v) => *v,
            None => 0,
        }
    }

    /// Stores `v` at `id`, overwriting any prior value, and returns `v`
    /// (a write is itself an expression with a value).
    pub fn set(&mut self, id: u64, v: i64) -> (r: i64)
        ensures
            final(self)@ == old(self)@.insert(id, v),
            r == v,
    {
        self.map.insert(id, v);
        v
    }
}

} // verus!
