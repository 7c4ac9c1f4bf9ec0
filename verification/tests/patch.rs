use user_account::error::LayoutError;
use user_account::patch::{apply_patches, check_indices, write_bytes, write_patches};

#[test]
fn write_bytes_overwrites_the_range_it_is_given() {
    let mut buf = [1u8, 2, 3, 4, 5, 6, 7, 8];
    write_bytes(&mut buf, 3, &[0xA, 0xB, 0xC]);
    assert_eq!(buf, [1, 2, 3, 0xA, 0xB, 0xC, 7, 8]);
    write_bytes(&mut buf, 0, &[]);
    write_bytes(&mut buf, 8, &[]);
    assert_eq!(buf, [1, 2, 3, 0xA, 0xB, 0xC, 7, 8]);
    write_bytes(&mut buf, 6, &[0xD, 0xE]);
    assert_eq!(buf, [1, 2, 3, 0xA, 0xB, 0xC, 0xD, 0xE]);
}

#[test]
fn patches_replace_the_named_entries_only() {
    // Two bytes of header, four entries of three bytes, one byte behind.
    let mut buf: Vec<u8> = (100..115).collect();
    let table: Vec<u8> = (1..=12).collect();
    assert_eq!(apply_patches(&mut buf, 2, 3, &table, &[2, 0]), Ok(()));
    assert_eq!(buf, vec![100, 101, 1, 2, 3, 105, 106, 107, 7, 8, 9, 111, 112, 113, 114]);
}

#[test]
fn patches_with_no_index_leave_the_buffer() {
    let mut buf: Vec<u8> = (100..115).collect();
    let table: Vec<u8> = (1..=12).collect();
    assert_eq!(apply_patches(&mut buf, 2, 3, &table, &[]), Ok(()));
    assert_eq!(buf, (100..115).collect::<Vec<u8>>());
}

#[test]
fn patches_with_a_repeated_index_write_the_entry_once_over() {
    let mut buf = vec![0u8; 8];
    let table = [1u8, 2, 3, 4, 5, 6, 7, 8];
    assert_eq!(apply_patches(&mut buf, 0, 4, &table, &[1, 1, 1]), Ok(()));
    assert_eq!(buf, vec![0, 0, 0, 0, 5, 6, 7, 8]);
}

#[test]
fn patches_beyond_the_table_are_rejected_before_any_write() {
    let mut buf: Vec<u8> = (100..115).collect();
    let table: Vec<u8> = (1..=12).collect();
    assert_eq!(apply_patches(&mut buf, 2, 3, &table, &[0, 4]), Err(LayoutError::OutOfRange));
    assert_eq!(buf, (100..115).collect::<Vec<u8>>());
    assert_eq!(
        apply_patches(&mut buf, 2, 3, &table, &[1, usize::MAX]),
        Err(LayoutError::OutOfRange)
    );
    assert_eq!(buf, (100..115).collect::<Vec<u8>>());
}

#[test]
fn patches_do_not_reach_into_a_partial_last_entry() {
    // Eleven bytes hold three whole entries of three bytes.
    let mut buf = vec![0u8; 11];
    let table: Vec<u8> = (1..=11).collect();
    assert_eq!(apply_patches(&mut buf, 0, 3, &table, &[3]), Err(LayoutError::OutOfRange));
    assert_eq!(buf, vec![0u8; 11]);
    assert_eq!(apply_patches(&mut buf, 0, 3, &table, &[2]), Ok(()));
    assert_eq!(buf, vec![0, 0, 0, 0, 0, 0, 7, 8, 9, 0, 0]);
}

#[test]
fn patches_of_empty_entries_write_nothing() {
    let mut buf = vec![5u8; 6];
    let table = [1u8, 2, 3];
    assert_eq!(apply_patches(&mut buf, 1, 0, &table, &[0, 7, usize::MAX]), Ok(()));
    assert_eq!(buf, vec![5u8; 6]);
}

#[test]
fn unchecked_patches_write_like_checked_ones() {
    let table: Vec<u8> = (1..=12).collect();
    let mut checked: Vec<u8> = (100..115).collect();
    let mut unchecked = checked.clone();
    apply_patches(&mut checked, 2, 3, &table, &[3, 1]).unwrap();
    write_patches(&mut unchecked, 2, 3, &table, &[3, 1]);
    assert_eq!(checked, unchecked);
    assert_eq!(unchecked, vec![100, 101, 102, 103, 104, 4, 5, 6, 108, 109, 110, 10, 11, 12, 114]);
}

#[test]
fn indices_are_checked_against_the_whole_entries_of_the_table() {
    assert!(check_indices(&[], 3, 0));
    assert!(check_indices(&[0, 1, 2, 3], 3, 12));
    assert!(!check_indices(&[0, 1, 2, 3], 3, 11));
    assert!(!check_indices(&[4], 3, 12));
    assert!(!check_indices(&[0], 3, 2));
    assert!(check_indices(&[99], 216, 21_600));
    assert!(!check_indices(&[100], 216, 21_600));
    assert!(!check_indices(&[usize::MAX], 1, usize::MAX));
    assert!(check_indices(&[usize::MAX - 1], 1, usize::MAX));
    assert!(check_indices(&[usize::MAX], 0, 0));
}
