//! Errors reported by the codec.

use vstd::prelude::*;

verus! {

/// Why an operation on a record or its buffer was rejected.
#[derive(Clone, Copy, Debug, PartialEq, Eq, Structural)]
pub enum LayoutError {
    /// The buffer handed to the decoder is shorter than a whole record.
    UndersizedBuffer,
    /// An entry index is not below the capacity of the table.
    OutOfRange,
    /// An entry payload does not have exactly the size of an entry.
    BadEntryLength,
}

} // verus!
