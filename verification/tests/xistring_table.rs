use xi_tinkerer::audit::FormatKind;
use xi_tinkerer::error::DatError;
use xi_tinkerer::formats::xistring_table::{
    default_header_marker, XiStringMetadata, XiStringTable,
};

#[test]
fn opaque_header_and_entry_metadata_round_trip() {
    let table = XiStringTable {
        header_marker: 304231515,
        metadata: vec![(
            1,
            XiStringMetadata {
                unknown1: 1,
                unknown2: 2,
                unknown3: 4,
            },
        )],
        strings: vec![
            (0, b"Accept %s's invitation?".to_vec()),
            (1, b"Form an alliance with %s's party?".to_vec()),
        ],
    };

    let bytes = table.write().unwrap();
    let parsed = XiStringTable::parse(&bytes).unwrap();
    assert_eq!(parsed.write().unwrap(), bytes);

    assert_eq!(parsed.header_marker, 304231515);
    assert_eq!(parsed.metadata, table.metadata);
    assert_eq!(parsed.strings, table.strings);
}

#[test]
fn new_tables_use_the_canonical_header_marker() {
    let bytes = XiStringTable::default().write().unwrap();

    assert_eq!(
        u32::from_le_bytes(bytes[0x34..0x38].try_into().unwrap()),
        304091210
    );
    assert_eq!(default_header_marker(), 304091210);
}

#[test]
fn gaps_between_indices_are_written_as_empty_strings() {
    let table = XiStringTable {
        header_marker: 7,
        metadata: vec![],
        strings: vec![(2, b"two".to_vec())],
    };
    let bytes = table.write().unwrap();
    // Header, three metadata records, then "\0", "\0" and "two\0".
    assert_eq!(bytes.len(), 56 + 36 + 6);
    assert_eq!(u32::from_le_bytes(bytes[36..40].try_into().unwrap()), 3);
    let parsed = XiStringTable::parse(&bytes).unwrap();
    assert_eq!(
        parsed.strings,
        vec![(0, vec![]), (1, vec![]), (2, b"two".to_vec())]
    );
    assert!(parsed.metadata.is_empty());
}

#[test]
fn an_empty_table_still_holds_one_entry() {
    let bytes = XiStringTable::default().write().unwrap();
    assert_eq!(bytes.len(), 56 + 12 + 1);
    assert_eq!(&bytes[0..10], b"XISTRING\0\0");
}

#[test]
fn inconsistent_headers_are_rejected() {
    let bytes = XiStringTable::default().write().unwrap();
    let mut wrong_size = bytes.clone();
    wrong_size[32] = wrong_size[32].wrapping_add(1);
    assert!(XiStringTable::parse(&wrong_size).is_err());
    let mut wrong_offset = bytes.clone();
    wrong_offset[56] = 1;
    assert!(XiStringTable::parse(&wrong_offset).is_err());
    assert!(XiStringTable::parse(&bytes[..40]).is_err());
}

fn header(entry_count: u32, meta_bytes: u32, data_bytes: u32, unknown1: u32, total: u32) -> Vec<u8> {
    let mut bytes = b"XISTRING\0\0".to_vec();
    bytes.extend_from_slice(&2u16.to_le_bytes());
    bytes.resize(32, 0);
    for word in [total, entry_count, meta_bytes, data_bytes, unknown1, 0] {
        bytes.extend_from_slice(&word.to_le_bytes());
    }
    bytes
}

#[test]
fn header_errors_say_which_field_is_wrong() {
    let bad_sizes = header(1, 10, 0, 0, 56);
    assert_eq!(XiStringTable::parse(&bad_sizes).err(), Some(DatError::XiStringHeader));
    let failure = FormatKind::XiStringTable.round_trip(&bad_sizes).unwrap().unwrap_err();
    assert_eq!(failure.message, "Invalid header values.");

    let reserved = header(0, 0, 0, 7, 56);
    assert_eq!(XiStringTable::parse(&reserved).err(), Some(DatError::XiStringUnknown1(7)));
    let failure = FormatKind::XiStringTable.round_trip(&reserved).unwrap().unwrap_err();
    assert_eq!(failure.message, "unknown1 is 7");

    let wrong_size = header(0, 0, 0, 0, 57);
    assert_eq!(XiStringTable::parse(&wrong_size).err(), Some(DatError::Malformed));
    assert!(XiStringTable::parse(&header(0, 0, 0, 0, 56)).is_ok());
}
