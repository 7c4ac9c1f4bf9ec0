//! Byte layout of an account record: a 34-byte header followed by a table of
//! fixed-size entries.

use vstd::prelude::*;

verus! {

/// Bytes in one entry of the table.
pub const SIZE_UTXO: usize = 216;

/// Number of entries the table holds.
pub const UTXO_CAPACITY: usize = 100;

/// Offset of the initialized flag in a record.
pub const FLAG_OFFSET: usize = 0;

/// Offset of the type tag in a record.
pub const TYPE_OFFSET: usize = 1;

/// Offset of the owner key in a record.
pub const PUBKEY_OFFSET: usize = 2;

/// Bytes before the table: the initialized flag, the type tag and the owner key.
pub const HEADER_LEN: usize = 34;

/// Bytes in the owner key.
pub const PUBKEY_LEN: usize = 32;

/// Bytes in the whole table.
pub const TABLE_LEN: usize = SIZE_UTXO * UTXO_CAPACITY;

/// Bytes in a whole record.
pub const LEN: usize = HEADER_LEN + TABLE_LEN;

/// Type tag written when a record is first initialized.
pub const USER_ACCOUNT_TYPE: u8 = 10;

/// Offset of entry `index` within a record.
pub open spec fn entry_start(index: int) -> int {
    HEADER_LEN + index * SIZE_UTXO
}

/// The bytes of entry `index` within the record that `buf` holds.
pub open spec fn entry_in(buf: Seq<u8>, index: int) -> Seq<u8> {
    buf.subrange(entry_start(index), entry_start(index) + SIZE_UTXO)
}

} // verus!
