use vstd::prelude::*;

verus! {

/// Measures full-precision distances from one heap tuple to others: it keeps the
/// table slot of the tuple it measures from (`T`, as the storage fetched it) and
/// the storage (`S`) that fetches the others.
pub struct HeapFullDistanceMeasure<'a, S, T> {
    table_slot: Option<T>,
    storage: &'a S,
}

impl<'a, S, T> HeapFullDistanceMeasure<'a, S, T> {
    /// The slot of the tuple measured from is always there.
    #[verifier::type_invariant]
    spec fn has_table_slot(self) -> bool {
        self.table_slot is Some
    }

    pub closed spec fn spec_table_slot(self) -> T {
        self.table_slot->0
    }

    pub closed spec fn spec_storage(self) -> &'a S {
        self.storage
    }

    /// A measure from the tuple in `table_slot`, which `storage` fetched.
    pub fn new(storage: &'a S, table_slot: T) -> (result: Self)
        ensures
            result.spec_table_slot() == table_slot,
            result.spec_storage() == storage,
    {
        HeapFullDistanceMeasure { table_slot: Some(table_slot), storage }
    }

    /// The slot of the tuple measured from.
    pub fn table_slot(&self) -> (result: &T)
        ensures
            *result == self.spec_table_slot(),
    {
        proof {
            use_type_invariant(self);
        }
        self.table_slot.as_ref().unwrap()
    }

    /// The storage that fetches the tuples measured to.
    pub fn storage(&self) -> (result: &'a S)
        ensures
            result == self.spec_storage(),
    {
        self.storage
    }
}

} // verus!
