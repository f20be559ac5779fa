use vstd::prelude::*;

verus! {

/// Identifier of a slot-store entry: the slot position and the generation the
/// slot had when the entry was inserted. Two identifiers are equal only if
/// both fields are.
#[derive(Clone, Copy, Debug, PartialEq, Eq, Structural, Hash)]
pub struct Id {
    pub slot: usize,
    pub generation: u64,
}

impl Id {
    /// Builds an identifier from its two parts.
    pub fn new(slot: usize, generation: u64) -> (id: Id)
        ensures
            id == (Id { slot, generation }),
    {
        Id { slot, generation }
    }
}

} // verus!
