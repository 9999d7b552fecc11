//! Sizing of a slot pool.

use vstd::prelude::*;

verus! {

/// A group of equally sized slots: `slot_count` slots of `slot_size` bytes each.
#[derive(Debug, Clone, Copy, PartialEq, Eq)]
pub struct SizeClass {
    /// Payload bytes of one slot.
    pub slot_size: u32,
    /// Number of slots in the class.
    pub slot_count: u32,
}

impl SizeClass {
    /// A class of `slot_count` slots of `slot_size` bytes.
    pub fn new(slot_size: u32, slot_count: u32) -> (class: Self)
        ensures
            class.slot_size == slot_size,
            class.slot_count == slot_count,
    {
        SizeClass { slot_size, slot_count }
    }
}

} // verus!
