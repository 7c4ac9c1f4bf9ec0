//! What holds of decoding and encoding taken together.

use crate::layout::{
    entry_in, HEADER_LEN, LEN, PUBKEY_LEN, PUBKEY_OFFSET, SIZE_UTXO, USER_ACCOUNT_TYPE,
    UTXO_CAPACITY,
};
use crate::patch::lemma_patched_entry;
use crate::slots::entry_of;
use crate::state::{packed, unpacked, AccountView};
use vstd::prelude::*;

verus! {

/// Encoding never changes the length of the buffer.
pub proof fn lemma_packed_len(account: AccountView, dst: Seq<u8>)
    requires
        account.well_formed(),
        dst.len() == LEN,
    ensures
        packed(account, dst).len() == LEN,
{
}

/// A record decoded from an initialized buffer and encoded again with nothing
/// marked gives back the buffer it was decoded from, byte for byte.
pub proof fn lemma_unmodified_roundtrip(buffer: Seq<u8>)
    requires
        buffer.len() == LEN,
        buffer[0] != 0,
    ensures
        !unpacked(buffer).mode_init,
        unpacked(buffer).modified_ranges == Set::<int>::empty(),
        packed(unpacked(buffer), buffer) == buffer,
{
    assert(packed(unpacked(buffer), buffer) =~= buffer);
}

/// Outside init mode, encoding writes the marked entries and nothing else:
/// each marked entry of the buffer becomes the entry of the record, each
/// unmarked entry and the header stay what the buffer held before.
pub proof fn lemma_scoped_write(account: AccountView, dst: Seq<u8>)
    requires
        account.well_formed(),
        !account.mode_init,
        dst.len() == LEN,
    ensures
        forall|i: int|
            account.modified_ranges.contains(i) ==> entry_in(packed(account, dst), i) == entry_of(
                account.enc_utxos,
                i,
            ),
        forall|i: int|
            0 <= i < UTXO_CAPACITY && !account.modified_ranges.contains(i) ==> entry_in(
                packed(account, dst),
                i,
            ) == entry_in(dst, i),
        packed(account, dst).subrange(0, HEADER_LEN as int) == dst.subrange(0, HEADER_LEN as int),
{
    let out = packed(account, dst);
    assert forall|i: int| 0 <= i < UTXO_CAPACITY implies entry_in(out, i) == (if account.modified_ranges.contains(
        i,
    ) {
        entry_of(account.enc_utxos, i)
    } else {
        entry_in(dst, i)
    }) by {
        lemma_patched_entry(
            dst,
            HEADER_LEN as int,
            SIZE_UTXO as int,
            account.enc_utxos,
            account.modified_ranges,
            i,
        );
    }
    assert(out.subrange(0, HEADER_LEN as int) =~= dst.subrange(0, HEADER_LEN as int));
}

/// A buffer whose flag byte is zero decodes to a record in init mode. Once
/// that record has been given the owner key `owner`, encoding it sets the
/// flag to 1, the type tag to `USER_ACCOUNT_TYPE` and the key to `owner`, and
/// leaves the table as the destination buffer held it; the result decodes to
/// a record that is no longer in init mode.
pub proof fn lemma_init_transition(input: Seq<u8>, owner: Seq<u8>, dst: Seq<u8>)
    requires
        input.len() >= LEN,
        input[0] == 0,
        owner.len() == PUBKEY_LEN,
        dst.len() == LEN,
    ensures
        unpacked(input).mode_init,
        unpacked(input).account_type == USER_ACCOUNT_TYPE,
        ({
            let account = AccountView { owner_pubkey: owner, ..unpacked(input) };
            let out = packed(account, dst);
            &&& out.len() == LEN
            &&& out[0] == 1
            &&& out[1] == USER_ACCOUNT_TYPE
            &&& out.subrange(PUBKEY_OFFSET as int, HEADER_LEN as int) == owner
            &&& out.subrange(HEADER_LEN as int, LEN as int) == dst.subrange(
                HEADER_LEN as int,
                LEN as int,
            )
            &&& !unpacked(out).mode_init
            &&& unpacked(out).account_type == USER_ACCOUNT_TYPE
            &&& unpacked(out).owner_pubkey == owner
        }),
{
    let account = AccountView { owner_pubkey: owner, ..unpacked(input) };
    let out = packed(account, dst);
    assert(out.subrange(PUBKEY_OFFSET as int, HEADER_LEN as int) =~= owner);
    assert(out.subrange(HEADER_LEN as int, LEN as int) =~= dst.subrange(
        HEADER_LEN as int,
        LEN as int,
    ));
}

/// No encoding takes an initialized buffer back to a blank one: after a
/// record in init mode, or any record into a buffer whose flag byte is not
/// zero, has been encoded, the flag byte is not zero.
pub proof fn lemma_stays_initialized(account: AccountView, dst: Seq<u8>)
    requires
        account.well_formed(),
        dst.len() == LEN,
        account.mode_init || dst[0] != 0,
    ensures
        packed(account, dst)[0] != 0,
        !unpacked(packed(account, dst)).mode_init,
{
}

} // verus!
