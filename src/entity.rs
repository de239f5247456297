//! Entity handles.

use vstd::prelude::*;

verus! {

/// An opaque entity handle: the identifier under which an entity's
/// components are stored.
#[derive(Clone, Copy, Debug, PartialEq, Eq, Structural)]
pub struct Entity {
    pub id: u64,
}

impl Entity {
    /// Makes a handle for the identifier `id`.
    pub fn new(id: u64) -> (r: Entity)
        ensures
            r.id == id,
    {
        Entity { id }
    }
}

} // verus!
