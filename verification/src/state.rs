//! The account record and its conversion from and to the bytes of a buffer.

use crate::error::LayoutError;
use crate::layout::{
    FLAG_OFFSET, HEADER_LEN, LEN, PUBKEY_LEN, PUBKEY_OFFSET, SIZE_UTXO, TABLE_LEN, TYPE_OFFSET,
    USER_ACCOUNT_TYPE, UTXO_CAPACITY,
};
use crate::patch::{patched, write_bytes, write_patches};
use crate::slots::SlotTable;
use crate::tracker::ModificationTracker;
use vstd::prelude::*;

verus! {

/// What a record holds, as mathematical values.
#[verifier::ext_equal]
pub struct AccountView {
    /// Whether the record counts as initialized.
    pub initialized: bool,
    /// The type tag.
    pub account_type: u8,
    /// The `PUBKEY_LEN` bytes of the owner key.
    pub owner_pubkey: Seq<u8>,
    /// The `TABLE_LEN` bytes of the table of entries.
    pub enc_utxos: Seq<u8>,
    /// The indices of the entries to write at the next encoding.
    pub modified_ranges: Set<int>,
    /// Whether the next encoding initializes the header.
    pub mode_init: bool,
}

impl AccountView {
    /// The key and the table have their fixed sizes, and every marked index is
    /// the index of an entry.
    pub open spec fn well_formed(self) -> bool {
        &&& self.owner_pubkey.len() == PUBKEY_LEN
        &&& self.enc_utxos.len() == TABLE_LEN
        &&& forall|i: int| self.modified_ranges.contains(i) ==> 0 <= i < UTXO_CAPACITY
    }
}

/// The record that the first `LEN` bytes of `input` decode to. A zero flag
/// byte stands for a record that was never initialized: it decodes with the
/// default type tag and asks the next encoding to initialize the header. Key
/// and entries are taken from `input` as they are, whatever the flag.
pub open spec fn unpacked(input: Seq<u8>) -> AccountView {
    let blank = input[FLAG_OFFSET as int] == 0;
    AccountView {
        initialized: true,
        account_type: if blank {
            USER_ACCOUNT_TYPE
        } else {
            input[TYPE_OFFSET as int]
        },
        owner_pubkey: input.subrange(PUBKEY_OFFSET as int, HEADER_LEN as int),
        enc_utxos: input.subrange(HEADER_LEN as int, LEN as int),
        modified_ranges: Set::empty(),
        mode_init: blank,
    }
}

/// The bytes of a buffer that held `dst` after `account` was encoded into it.
/// In init mode the header is written and the table is the one of `dst`;
/// otherwise the marked entries are written and every other byte, the header
/// included, is the one of `dst`.
pub open spec fn packed(account: AccountView, dst: Seq<u8>) -> Seq<u8> {
    if account.mode_init {
        seq![1u8, USER_ACCOUNT_TYPE] + account.owner_pubkey + dst.subrange(
            HEADER_LEN as int,
            dst.len() as int,
        )
    } else {
        patched(
            dst,
            HEADER_LEN as int,
            SIZE_UTXO as int,
            account.enc_utxos,
            account.modified_ranges,
        )
    }
}

/// An account record in memory.
#[derive(Debug)]
pub struct UserAccount {
    /// Whether the record counts as initialized.
    pub is_initialized: bool,
    /// The type tag.
    pub account_type: u8,
    /// The key of the owner.
    pub owner_pubkey: [u8; 32],
    /// The table of entries.
    pub enc_utxos: SlotTable,
    /// The entries that changed since the record was decoded.
    pub modified_ranges: ModificationTracker,
    /// Whether the next encoding initializes the header instead of writing
    /// the changed entries.
    pub mode_init: bool,
}

impl View for UserAccount {
    type V = AccountView;

    open spec fn view(&self) -> AccountView {
        AccountView {
            initialized: self.is_initialized,
            account_type: self.account_type,
            owner_pubkey: self.owner_pubkey@,
            enc_utxos: self.enc_utxos@,
            modified_ranges: self.modified_ranges@,
            mode_init: self.mode_init,
        }
    }
}

impl Clone for UserAccount {
    fn clone(&self) -> (copy: Self)
        ensures
            copy@ == self@,
    {
        UserAccount {
            is_initialized: self.is_initialized,
            account_type: self.account_type,
            owner_pubkey: self.owner_pubkey,
            enc_utxos: self.enc_utxos.clone(),
            modified_ranges: self.modified_ranges.clone(),
            mode_init: self.mode_init,
        }
    }
}

impl UserAccount {
    /// Whether the record counts as initialized. Every decoded record does.
    pub fn is_initialized(&self) -> (initialized: bool)
        ensures
            initialized == self@.initialized,
    {
        self.is_initialized
    }

    /// Decodes the first `LEN` bytes of `input`. A shorter input is rejected
    /// with `UndersizedBuffer`; nothing else is checked.
    pub fn unpack_from_slice(input: &[u8]) -> (result: Result<UserAccount, LayoutError>)
        ensures
            input@.len() < LEN ==> result == Err::<UserAccount, LayoutError>(
                LayoutError::UndersizedBuffer,
            ),
            input@.len() >= LEN ==> result is Ok && result->Ok_0@ == unpacked(input@),
    {
        if input.len() < LEN {
            return Err(LayoutError::UndersizedBuffer);
        }
        let blank = input[FLAG_OFFSET] == 0;
        let account_type: u8 = if blank {
            USER_ACCOUNT_TYPE
        } else {
            input[TYPE_OFFSET]
        };
        let mut owner_pubkey = [0u8; 32];
        let mut i: usize = 0;
        while i < PUBKEY_LEN
            invariant
                i <= PUBKEY_LEN,
                input@.len() >= LEN,
                forall|k: int| 0 <= k < i ==> owner_pubkey@[k] == input@[PUBKEY_OFFSET + k],
            decreases PUBKEY_LEN - i,
        {
            owner_pubkey[i] = input[PUBKEY_OFFSET + i];
            i = i + 1;
        }
        let enc_utxos = SlotTable::from_bytes(
            vstd::slice::slice_subrange(input, HEADER_LEN, LEN),
        );
        let account = UserAccount {
            is_initialized: true,
            account_type,
            owner_pubkey,
            enc_utxos,
            modified_ranges: ModificationTracker::new(),
            mode_init: blank,
        };
        assert(account@.owner_pubkey =~= unpacked(input@).owner_pubkey);
        assert(account@ =~= unpacked(input@));
        Ok(account)
    }

    /// Encodes the record into `dst`, a buffer of exactly `LEN` bytes. In init
    /// mode this writes the flag, the default type tag and the owner key, and
    /// none of the entries. Otherwise it writes the marked entries and no
    /// other byte; with no entry marked `dst` stays as it is.
    pub fn pack_into_slice(&self, dst: &mut [u8])
        requires
            old(dst)@.len() == LEN,
        ensures
            final(dst)@ == packed(self@, old(dst)@),
            !self.mode_init && self.modified_ranges@ == Set::<int>::empty() ==> final(dst)@ == old(
                dst,
            )@,
    {
        if self.mode_init {
            dst[FLAG_OFFSET] = 1;
            dst[TYPE_OFFSET] = USER_ACCOUNT_TYPE;
            write_bytes(dst, PUBKEY_OFFSET, self.owner_pubkey.as_slice());
            assert(dst@ =~= packed(self@, old(dst)@));
        } else {
            let table = self.enc_utxos.as_bytes();
            let indices = self.modified_ranges.indices();
            write_patches(dst, HEADER_LEN, SIZE_UTXO, table, indices);
            assert(self.modified_ranges@ == Set::<int>::empty() ==> dst@ =~= old(dst)@);
        }
    }
}

} // verus!
