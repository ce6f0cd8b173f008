use xi_tinkerer::audit::{AuditStatus, FormatKind};
use xi_tinkerer::error::DatError;
use xi_tinkerer::format_detect::{audit_bytes, known_formats_by_id};
use xi_tinkerer::formats::status_info::{StatusInfo, StatusInfoLayout, StatusInfoTable};

fn status(id: u16, description: &[u8], icon: &[u8]) -> StatusInfo {
    StatusInfo {
        id,
        description: description.to_vec(),
        cancellable: 2,
        system: 0,
        icon_bytes: icon.to_vec(),
    }
}

#[test]
fn legacy_status_info_round_trip() {
    let table = StatusInfoTable {
        layout: StatusInfoLayout::Legacy,
        status_infos: vec![status(7, b"Synthetic legacy status", &[1, 2, 3, 4])],
    };

    let bytes = table.write().unwrap();
    assert_eq!(bytes.len(), 0xC00);

    let parsed = StatusInfoTable::parse(&bytes).unwrap();
    assert_eq!(parsed.layout, StatusInfoLayout::Legacy);
    assert_eq!(parsed.status_infos[0].id, 7);
    assert_eq!(parsed, table);
    assert_eq!(parsed.write().unwrap(), bytes);
}

#[test]
fn modern_entries_are_twice_the_legacy_size() {
    let table = StatusInfoTable {
        layout: StatusInfoLayout::Modern,
        status_infos: vec![status(0, b"knocked out", &[9; 40]), status(1, b"", &[])],
    };
    let bytes = table.write().unwrap();
    assert_eq!(bytes.len(), 2 * 0x1800);
    assert_eq!(bytes[0x17FF], 0xFF);
    assert_eq!(bytes[0x2FFF], 0xFF);

    let parsed = StatusInfoTable::parse(&bytes).unwrap();
    assert_eq!(parsed, table);
}

#[test]
fn two_legacy_entries_are_not_read_as_one_modern_entry() {
    let table = StatusInfoTable {
        layout: StatusInfoLayout::Legacy,
        status_infos: vec![status(3, b"a", &[5]), status(4, b"b", &[6])],
    };
    let bytes = table.write().unwrap();
    assert_eq!(bytes.len(), 0x1800);
    assert_eq!(StatusInfoTable::parse(&bytes).unwrap().layout, StatusInfoLayout::Legacy);
}

#[test]
fn the_data_block_is_stored_rotated() {
    // Byte 2 (the cancellable code 2) has one set bit, bytes 11 and 12 none:
    // the block is read rotated right by one bit, so it is stored rotated left.
    let table = StatusInfoTable {
        layout: StatusInfoLayout::Legacy,
        status_infos: vec![status(7, b"x", &[])],
    };
    let bytes = table.write().unwrap();
    assert_eq!(bytes[0], 0x0E);
    assert_eq!(bytes[2], 0x04);
    assert_eq!(bytes[4], 0x02);
    assert_eq!(bytes[8], 0x18);
}

#[test]
fn status_info_errors_name_the_length() {
    assert_eq!(StatusInfoTable::parse(&[0u8; 5]).err(), Some(DatError::StatusInfoLength(5)));
    assert_eq!(StatusInfoTable::parse(&[]).err(), Some(DatError::StatusInfoLayouts(0)));
    assert_eq!(
        StatusInfoTable::parse(&[0u8; 0xC00]).err(),
        Some(DatError::StatusInfoLength(0xC00))
    );
    let failure = FormatKind::StatusInfoTable.round_trip(&[0u8; 5]).unwrap().unwrap_err();
    assert_eq!(failure.message, "Status info length 5 does not match a supported layout: ");
    let failure = FormatKind::StatusInfoTable.round_trip(&[]).unwrap().unwrap_err();
    assert_eq!(failure.message, "Status info length 0 matches multiple supported layouts.");
}

#[test]
fn icons_that_leave_no_room_are_not_written() {
    let table = StatusInfoTable {
        layout: StatusInfoLayout::Legacy,
        status_infos: vec![status(1, b"", &vec![0u8; 0xC00 - 0x284])],
    };
    assert_eq!(table.write().err(), Some(DatError::Unwritable));
    let fits = StatusInfoTable {
        layout: StatusInfoLayout::Legacy,
        status_infos: vec![status(1, b"", &vec![1u8; 0xC00 - 0x285])],
    };
    let bytes = fits.write().unwrap();
    assert_eq!(StatusInfoTable::parse(&bytes).unwrap(), fits);
}

#[test]
fn audits_round_trip_status_info_tables() {
    let table = StatusInfoTable {
        layout: StatusInfoLayout::Legacy,
        status_infos: vec![status(7, b"Synthetic legacy status", &[1, 2, 3, 4])],
    };
    let bytes = table.write().unwrap();
    let formats = known_formats_by_id(&[(87, FormatKind::StatusInfoTable)]);
    let file = audit_bytes(87, "ROM/0/87.DAT".to_string(), &[87], &formats, &bytes);
    assert_eq!(file.status, AuditStatus::Passed);
    assert_eq!(file.format.as_deref(), Some("status_info_table"));

    assert!(FormatKind::StatusInfoTable.check_bytes(&bytes));
    assert!(!FormatKind::StatusInfoTable.check_bytes(&[0u8; 0xC00]));
}
