use vstd::prelude::*;

verus! {

/// A block number that points at no block of a relation.
pub const INVALID_BLOCK_NUMBER: u32 = 0xFFFF_FFFFu32;

/// An item offset that points at no item of a page; real items start at offset one.
pub const INVALID_OFFSET_NUMBER: u16 = 0u16;

/// The size in bytes of one page of a relation.
pub const BLCKSZ: u32 = 8192u32;

/// The address of an item: the block that holds it and its offset in that block.
#[derive(Clone, Copy, Debug, PartialEq, Eq, Structural, Hash)]
pub struct ItemPointer {
    pub block_number: u32,
    pub offset: u16,
}

/// An item pointer into the index relation.
pub type IndexPointer = ItemPointer;

/// An item pointer into the heap (the indexed table).
pub type HeapPointer = ItemPointer;

/// The in-place form of an item pointer inside an archived record.
pub type ArchivedItemPointer = ItemPointer;

impl ItemPointer {
    pub fn new(block_number: u32, offset: u16) -> (result: ItemPointer)
        ensures
            result == (ItemPointer { block_number, offset }),
    {
        ItemPointer { block_number, offset }
    }

    /// The pointer that marks an unused slot: invalid block and invalid offset.
    pub open spec fn spec_invalid() -> ItemPointer {
        ItemPointer { block_number: INVALID_BLOCK_NUMBER, offset: INVALID_OFFSET_NUMBER }
    }

    /// The pointer with block zero and offset zero, which ends a chain of records.
    pub open spec fn spec_null() -> ItemPointer {
        ItemPointer { block_number: 0, offset: 0 }
    }

    pub fn invalid() -> (result: ItemPointer)
        ensures
            result == ItemPointer::spec_invalid(),
    {
        ItemPointer { block_number: INVALID_BLOCK_NUMBER, offset: INVALID_OFFSET_NUMBER }
    }

    pub fn null() -> (result: ItemPointer)
        ensures
            result == ItemPointer::spec_null(),
    {
        ItemPointer { block_number: 0, offset: 0 }
    }

    pub fn is_null(&self) -> (result: bool)
        ensures
            result == (*self == ItemPointer::spec_null()),
    {
        self.offset == 0 && self.block_number == 0
    }
}

} // verus!
