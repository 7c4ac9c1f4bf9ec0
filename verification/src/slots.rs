//! The table of entries of a record, held in memory.

use crate::error::LayoutError;
use crate::layout::{SIZE_UTXO, TABLE_LEN, UTXO_CAPACITY};
use crate::patch::overwritten;
use vstd::prelude::*;

verus! {

/// The bytes of entry `index` in a table laid out as `table`.
pub open spec fn entry_of(table: Seq<u8>, index: int) -> Seq<u8> {
    table.subrange(index * SIZE_UTXO, (index + 1) * SIZE_UTXO)
}

/// `UTXO_CAPACITY` entries of `SIZE_UTXO` bytes each, one after the other.
/// The table does not interpret what an entry holds.
#[derive(Debug)]
pub struct SlotTable {
    bytes: Vec<u8>,
}

impl View for SlotTable {
    type V = Seq<u8>;

    /// All entries in order, as one sequence of bytes.
    closed spec fn view(&self) -> Seq<u8> {
        self.bytes@
    }
}

impl Clone for SlotTable {
    fn clone(&self) -> (copy: Self)
        ensures
            copy@ == self@,
    {
        proof {
            use_type_invariant(self);
        }
        SlotTable { bytes: self.bytes.clone() }
    }
}

impl SlotTable {
    /// A table always holds exactly `TABLE_LEN` bytes.
    #[verifier::type_invariant]
    pub open spec fn well_formed(&self) -> bool {
        self@.len() == TABLE_LEN
    }

    /// The table whose bytes are those of `bytes`.
    pub(crate) fn from_bytes(bytes: &[u8]) -> (table: SlotTable)
        requires
            bytes@.len() == TABLE_LEN,
        ensures
            table@ == bytes@,
    {
        SlotTable { bytes: vstd::slice::slice_to_vec(bytes) }
    }

    /// All entries in order, as one slice of `TABLE_LEN` bytes.
    pub fn as_bytes(&self) -> (bytes: &[u8])
        ensures
            bytes@ == self@,
            bytes@.len() == TABLE_LEN,
    {
        proof {
            use_type_invariant(self);
        }
        self.bytes.as_slice()
    }

    /// The bytes of entry `index`, or `OutOfRange` where the table has no such
    /// entry.
    pub fn get(&self, index: usize) -> (result: Result<&[u8], LayoutError>)
        ensures
            index >= UTXO_CAPACITY ==> result == Err::<&[u8], LayoutError>(
                LayoutError::OutOfRange,
            ),
            index < UTXO_CAPACITY ==> result is Ok && result->Ok_0@ == entry_of(
                self@,
                index as int,
            ),
    {
        proof {
            use_type_invariant(self);
        }
        if index >= UTXO_CAPACITY {
            return Err(LayoutError::OutOfRange);
        }
        let start: usize = index * SIZE_UTXO;
        Ok(vstd::slice::slice_subrange(self.bytes.as_slice(), start, start + SIZE_UTXO))
    }

    /// Replaces entry `index` by `bytes`. An index at or above the capacity is
    /// rejected with `OutOfRange`, and otherwise a payload of another size than
    /// `SIZE_UTXO` with `BadEntryLength`; a rejected call leaves the table as it
    /// was.
    pub fn set(&mut self, index: usize, bytes: &[u8]) -> (result: Result<(), LayoutError>)
        ensures
            index >= UTXO_CAPACITY ==> result == Err::<(), LayoutError>(LayoutError::OutOfRange),
            index < UTXO_CAPACITY && bytes@.len() != SIZE_UTXO ==> result == Err::<
                (),
                LayoutError,
            >(LayoutError::BadEntryLength),
            index < UTXO_CAPACITY && bytes@.len() == SIZE_UTXO ==> result == Ok::<
                (),
                LayoutError,
            >(()),
            result is Err ==> *final(self) == *old(self),
            result is Ok ==> final(self)@ == overwritten(
                old(self)@,
                index * SIZE_UTXO,
                bytes@,
            ),
    {
        proof {
            use_type_invariant(&*self);
        }
        if index >= UTXO_CAPACITY {
            return Err(LayoutError::OutOfRange);
        }
        if bytes.len() != SIZE_UTXO {
            return Err(LayoutError::BadEntryLength);
        }
        let start: usize = index * SIZE_UTXO;
        let mut i: usize = 0;
        while i < SIZE_UTXO
            invariant
                i <= SIZE_UTXO,
                bytes@.len() == SIZE_UTXO,
                start + SIZE_UTXO <= TABLE_LEN,
                self.well_formed(),
                self@ == overwritten(old(self)@, start as int, bytes@.take(i as int)),
            decreases SIZE_UTXO - i,
        {
            self.bytes[start + i] = bytes[i];
            i = i + 1;
        }
        assert(bytes@.take(SIZE_UTXO as int) == bytes@);
        Ok(())
    }
}

} // verus!
