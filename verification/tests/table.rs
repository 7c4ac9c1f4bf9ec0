use user_account::error::LayoutError;
use user_account::layout::{LEN, SIZE_UTXO, UTXO_CAPACITY};
use user_account::state::UserAccount;

fn decoded() -> UserAccount {
    let mut buffer: Vec<u8> = (0..LEN).map(|k| (k % 253) as u8).collect();
    buffer[0] = 1;
    UserAccount::unpack_from_slice(&buffer).unwrap()
}

#[test]
fn setting_an_entry_replaces_exactly_that_entry() {
    let mut account = decoded();
    let before = account.enc_utxos.as_bytes().to_vec();
    let payload: Vec<u8> = (0..SIZE_UTXO).map(|k| 255 - (k % 200) as u8).collect();
    assert_eq!(account.enc_utxos.set(17, &payload), Ok(()));
    let after = account.enc_utxos.as_bytes();
    assert_eq!(&after[17 * 216..18 * 216], &payload[..]);
    assert_eq!(&after[..17 * 216], &before[..17 * 216]);
    assert_eq!(&after[18 * 216..], &before[18 * 216..]);
    assert_eq!(account.enc_utxos.get(17).unwrap(), &payload[..]);
    assert_eq!(account.enc_utxos.get(16).unwrap(), &before[16 * 216..17 * 216]);
}

#[test]
fn setting_the_first_and_the_last_entry() {
    let mut account = decoded();
    assert_eq!(account.enc_utxos.set(0, &[1; 216]), Ok(()));
    assert_eq!(account.enc_utxos.set(99, &[2; 216]), Ok(()));
    let bytes = account.enc_utxos.as_bytes();
    assert_eq!(&bytes[..216], &[1u8; 216][..]);
    assert_eq!(&bytes[99 * 216..], &[2u8; 216][..]);
    assert_eq!(bytes.len(), 21_600);
}

#[test]
fn setting_an_index_at_or_above_the_capacity_is_out_of_range() {
    let mut account = decoded();
    let before = account.enc_utxos.as_bytes().to_vec();
    for index in [UTXO_CAPACITY, UTXO_CAPACITY + 1, usize::MAX] {
        assert_eq!(account.enc_utxos.set(index, &[0; 216]), Err(LayoutError::OutOfRange));
        // The index is judged before the payload.
        assert_eq!(account.enc_utxos.set(index, &[0; 3]), Err(LayoutError::OutOfRange));
    }
    assert_eq!(account.enc_utxos.as_bytes(), &before[..]);
}

#[test]
fn setting_a_payload_of_another_size_is_a_bad_entry_length() {
    let mut account = decoded();
    let before = account.enc_utxos.as_bytes().to_vec();
    for len in [0usize, 1, 215, 217, 432] {
        assert_eq!(
            account.enc_utxos.set(5, &vec![9u8; len]),
            Err(LayoutError::BadEntryLength)
        );
    }
    assert_eq!(account.enc_utxos.as_bytes(), &before[..]);
}

#[test]
fn getting_an_index_at_or_above_the_capacity_is_out_of_range() {
    let account = decoded();
    assert!(account.enc_utxos.get(99).is_ok());
    assert_eq!(account.enc_utxos.get(100), Err(LayoutError::OutOfRange));
    assert_eq!(account.enc_utxos.get(usize::MAX), Err(LayoutError::OutOfRange));
}

#[test]
fn a_table_copy_holds_the_same_bytes() {
    let mut account = decoded();
    account.enc_utxos.set(1, &[0xA0; 216]).unwrap();
    let copy = account.enc_utxos.clone();
    assert_eq!(copy.as_bytes(), account.enc_utxos.as_bytes());
}

#[test]
fn marking_collects_indices() {
    let mut account = decoded();
    assert!(account.modified_ranges.is_empty());
    assert!(!account.modified_ranges.is_marked(3));
    assert_eq!(account.modified_ranges.mark(3), Ok(()));
    assert_eq!(account.modified_ranges.mark(99), Ok(()));
    assert_eq!(account.modified_ranges.mark(0), Ok(()));
    assert!(!account.modified_ranges.is_empty());
    for index in 0..UTXO_CAPACITY {
        assert_eq!(account.modified_ranges.is_marked(index), [0, 3, 99].contains(&index));
    }
    let mut indices = account.modified_ranges.indices().to_vec();
    indices.sort();
    indices.dedup();
    assert_eq!(indices, vec![0, 3, 99]);
}

#[test]
fn marking_twice_marks_the_same_set() {
    let mut account = decoded();
    account.modified_ranges.mark(8).unwrap();
    account.modified_ranges.mark(8).unwrap();
    for index in 0..UTXO_CAPACITY {
        assert_eq!(account.modified_ranges.is_marked(index), index == 8);
    }
    assert!(account.modified_ranges.indices().iter().all(|&index| index == 8));
}

#[test]
fn marking_an_index_at_or_above_the_capacity_is_out_of_range() {
    let mut account = decoded();
    account.modified_ranges.mark(1).unwrap();
    let before = account.modified_ranges.indices().to_vec();
    for index in [UTXO_CAPACITY, UTXO_CAPACITY + 1, usize::MAX] {
        assert_eq!(account.modified_ranges.mark(index), Err(LayoutError::OutOfRange));
        assert!(!account.modified_ranges.is_marked(index));
    }
    assert_eq!(account.modified_ranges.indices(), &before[..]);
}

#[test]
fn a_rejected_mark_writes_nothing_at_the_next_encoding() {
    let mut account = decoded();
    assert_eq!(account.enc_utxos.set(100, &[1; 216]), Err(LayoutError::OutOfRange));
    assert_eq!(account.modified_ranges.mark(100), Err(LayoutError::OutOfRange));
    let mut dst = vec![0x3Cu8; LEN];
    account.pack_into_slice(&mut dst);
    assert_eq!(dst, vec![0x3Cu8; LEN]);
}

#[test]
fn a_tracker_copy_marks_the_same_indices() {
    let mut account = decoded();
    account.modified_ranges.mark(6).unwrap();
    let copy = account.modified_ranges.clone();
    assert!(copy.is_marked(6));
    assert!(!copy.is_marked(7));
    account.modified_ranges.mark(7).unwrap();
    assert!(!copy.is_marked(7));
}
