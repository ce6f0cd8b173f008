use xi_tinkerer::audit::FormatKind;
use xi_tinkerer::error::DatError;
use xi_tinkerer::formats::dialog::{Dialog, DIALOG_MASK};

#[test]
fn check_type_rejects_a_header_without_its_string_table() {
    let mut header_only = Vec::new();
    header_only.extend_from_slice(&0x10000004u32.to_le_bytes());
    header_only.extend_from_slice(&(8u32 ^ DIALOG_MASK).to_le_bytes());

    assert!(!Dialog::check_type(&header_only));
    assert!(Dialog::parse(&header_only).is_err());
}

#[test]
fn empty_sentinel_round_trips() {
    let bytes = [0u8; 4];

    let dialog = Dialog::parse(&bytes).unwrap();

    assert!(dialog.entries.is_empty());
    assert_eq!(dialog.write().unwrap(), bytes);
}

#[test]
fn four_byte_nonzero_marker_is_rejected() {
    assert!(Dialog::parse(&1u32.to_le_bytes()).is_err());
}

#[test]
fn empty_marker_requires_exactly_four_bytes() {
    assert!(Dialog::parse(&[]).is_err());
    assert!(Dialog::parse(&[0u8; 3]).is_err());
    assert!(Dialog::parse(&[0u8; 5]).is_err());
}

#[test]
fn single_entry_round_trips() {
    let dialog = Dialog {
        entries: vec![(0, b"Single entry.".to_vec())],
    };

    let bytes = dialog.write().unwrap();

    assert_eq!(Dialog::parse(&bytes).unwrap(), dialog);
}

#[test]
fn several_entries_are_masked_and_padded() {
    let dialog = Dialog {
        entries: vec![(0, b"ab".to_vec()), (1, b"cde".to_vec()), (2, vec![])],
    };
    let bytes = dialog.write().unwrap();
    // Size and count words, two end words, five text bytes, three padding bytes.
    assert_eq!(bytes.len(), 4 + 4 + 8 + 5 + 3);
    assert_eq!(bytes.len() % 4, 0);
    assert_eq!(u32::from_le_bytes(bytes[0..4].try_into().unwrap()), (24u32 ^ 0x10000000) - 4);
    assert_eq!(bytes[16], b'a' ^ 0x80);
    assert_eq!(bytes[21], 0x80);
    assert_eq!(Dialog::parse(&bytes).unwrap(), dialog);
}

#[test]
fn out_of_order_string_ends_are_rejected() {
    let dialog = Dialog {
        entries: vec![(0, b"ab".to_vec()), (1, b"cd".to_vec())],
    };
    let mut bytes = dialog.write().unwrap();
    // Point the end of the first string before the start of the string data.
    bytes[8..12].copy_from_slice(&(0u32 ^ DIALOG_MASK).to_le_bytes());
    assert!(Dialog::parse(&bytes).is_err());
}

fn header(size_word: u32, shifted: u32) -> Vec<u8> {
    let mut bytes = Vec::new();
    bytes.extend_from_slice(&size_word.to_le_bytes());
    bytes.extend_from_slice(&(shifted ^ DIALOG_MASK).to_le_bytes());
    bytes
}

#[test]
fn dialog_errors_name_the_failed_header_check() {
    assert_eq!(
        Dialog::parse(&0x12ABu32.to_le_bytes()).err(),
        Some(DatError::DialogEmptyMarker(0x12AB))
    );
    assert_eq!(Dialog::parse(&[0u8; 8]).err(), Some(DatError::DialogEmpty));
    assert_eq!(
        Dialog::parse(&header(0x10000005, 4)).err(),
        Some(DatError::DialogFileSize(9, 8))
    );
    assert_eq!(
        Dialog::parse(&header(0x10000004, 6)).err(),
        Some(DatError::DialogStringCount(6, 8))
    );
    assert_eq!(
        Dialog::parse(&header(0x10000004, 8)).err(),
        Some(DatError::DialogStringCount(8, 8))
    );
    assert_eq!(Dialog::parse(&[1u8, 0, 0]).err(), Some(DatError::Malformed));
}

#[test]
fn dialog_round_trip_failures_carry_the_header_message() {
    let marker = FormatKind::Dialog.round_trip(&0x12ABu32.to_le_bytes()).unwrap().unwrap_err();
    assert_eq!(marker.message, "Invalid empty dialog marker 0x000012AB.");
    let empty = FormatKind::Dialog.round_trip(&[0u8; 8]).unwrap().unwrap_err();
    assert_eq!(empty.message, "Possible empty dialog DAT.");
    let size = FormatKind::Dialog.round_trip(&header(0x10000005, 4)).unwrap().unwrap_err();
    assert_eq!(size.message, "Invalid file size 9 with byte count 8.");
    let count = FormatKind::Dialog.round_trip(&header(0x10000004, 6)).unwrap().unwrap_err();
    assert_eq!(count.message, "Invalid shifted string count 6 with byte count 8.");
}
