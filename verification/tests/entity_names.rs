use xi_tinkerer::audit::FormatKind;
use xi_tinkerer::error::DatError;
use xi_tinkerer::formats::entity_names::{get_entity_names_zone, EntityName, EntityNames};

fn sample_bytes() -> Vec<u8> {
    let mut bytes = b"none".to_vec();
    bytes.resize(28, 0);
    bytes.extend_from_slice(b"Ceraul");
    bytes.resize(52, 0);
    bytes.extend_from_slice(&0x010E6001u32.to_le_bytes());
    bytes.extend_from_slice(b"Aubejart");
    bytes.resize(80, 0);
    bytes.extend_from_slice(&0x010E6002u32.to_le_bytes());
    bytes
}

#[test]
fn parses_and_writes_28_byte_records() {
    let bytes = sample_bytes();
    let entities = EntityNames::parse(&bytes).unwrap();
    assert_eq!(entities.write().unwrap(), bytes);

    assert_eq!(entities.names.len(), 2);
    assert_eq!(entities.names[0].name(), b"Ceraul");
    assert_eq!(entities.names[0].id(), 0x010E6001);
    assert_eq!(entities.names[1].name(), b"Aubejart");
    assert_eq!(entities.names[1].id(), 0x010E6002);
}

#[test]
fn empty_header_has_no_records() {
    let mut bytes = b"none".to_vec();
    bytes.resize(28, 0);

    let entities = EntityNames::parse(&bytes).unwrap();

    assert!(entities.names.is_empty());
}

#[test]
fn rejects_incomplete_header_or_record() {
    assert!(EntityNames::parse(b"none").is_err());

    let mut bytes = b"none".to_vec();
    bytes.resize(29, 0);
    assert!(EntityNames::parse(&bytes).is_err());
}

#[test]
fn names_longer_than_their_field_are_not_written() {
    let entities = EntityNames {
        names: vec![EntityName::new(1, vec![b'a'; 25])],
    };
    assert!(entities.write().is_err());
    let entities = EntityNames {
        names: vec![EntityName::new(7, b"Maat".to_vec())],
    };
    let bytes = entities.write().unwrap();
    assert_eq!(bytes.len(), 56);
    let reread = EntityNames::parse(&bytes).unwrap();
    assert_eq!(reread.names[0].id(), 7);
    assert_eq!(reread.names[0].name(), b"Maat");
}

#[test]
fn a_wrong_marker_is_rejected() {
    let mut bytes = b"nona".to_vec();
    bytes.resize(28, 0);
    assert!(EntityNames::parse(&bytes).is_err());
}

#[test]
fn the_zone_comes_from_the_first_nonzero_id() {
    assert_eq!(get_entity_names_zone(&sample_bytes()), Some(0x0E6));

    let mut leading_zero = b"none".to_vec();
    leading_zero.resize(56, 0);
    leading_zero.extend_from_slice(&sample_bytes()[28..]);
    assert_eq!(get_entity_names_zone(&leading_zero), Some(0x0E6));

    let mut no_ids = b"none".to_vec();
    no_ids.resize(84, 0);
    assert_eq!(get_entity_names_zone(&no_ids), None);
    assert_eq!(get_entity_names_zone(b"nonf"), None);
    assert_eq!(get_entity_names_zone(b"no"), None);

    let mut partial = b"none".to_vec();
    partial.resize(52, 0);
    partial.extend_from_slice(&0x00ABC000u32.to_le_bytes());
    assert_eq!(get_entity_names_zone(&partial), Some(0xABC));
}

#[test]
fn incomplete_records_say_so() {
    let mut bytes = b"none".to_vec();
    bytes.resize(29, 0);
    assert_eq!(EntityNames::parse(&bytes).err(), Some(DatError::EntityRecords));
    assert_eq!(EntityNames::parse(b"nope").err(), Some(DatError::Malformed));
    let failure = FormatKind::EntityNames.round_trip(&bytes).unwrap().unwrap_err();
    assert_eq!(
        failure.message,
        "Entity-name DAT must contain a 28-byte header and complete 28-byte records."
    );
}
