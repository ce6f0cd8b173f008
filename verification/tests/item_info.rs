use xi_tinkerer::bytes::rotate_all;
use xi_tinkerer::formats::item_info::{
    EquipmentData, FurnishingData, ItemInfo, ItemInfoTable, UsableItemData, WeaponData,
};
use xi_tinkerer::formats::item_strings::ItemStrings;

const ITEM: u16 = 1;
const WEAPON: u16 = 4;
const ARMOR: u16 = 5;
const USABLE_ITEM: u16 = 7;
const ELEMENT_FIRE: u16 = 0;
const ELEMENT_UNDECIDED: u16 = 0xFFFF;
const SKILL_SWORD: u8 = 3;
const ARTICLE_A: u32 = 0;

fn test_strings() -> Option<ItemStrings> {
    Some(ItemStrings::Name {
        name: b"Test item".to_vec(),
    })
}

fn legacy_equipment() -> EquipmentData {
    EquipmentData {
        level: 1,
        slots: 0,
        races: 0,
        jobs: 0,
        superior_level: None,
        shield_size: None,
        max_charges: 0,
        casting_time: 0,
        use_delay: 0,
        reuse_delay: 0,
        unknown1: 0,
        ilevel: 0,
        unknown2: 0,
        unknown3: 0,
    }
}

#[test]
fn legacy_item_layouts_round_trip() {
    let table = ItemInfoTable {
        items: vec![
            ItemInfo {
                id: 1,
                item_type: ITEM,
                strings: test_strings(),
                furnishing: Some(FurnishingData {
                    element: ELEMENT_UNDECIDED,
                    storage_slots: 0,
                    unknown3: None,
                }),
                ..Default::default()
            },
            ItemInfo {
                id: 0x1000,
                item_type: USABLE_ITEM,
                strings: test_strings(),
                usable_item: Some(UsableItemData {
                    activation_time: 0,
                    unknown1: 0,
                    unknown2: None,
                    unknown3: None,
                }),
                ..Default::default()
            },
            ItemInfo {
                id: 0x2800,
                item_type: ARMOR,
                strings: test_strings(),
                equipment: Some(legacy_equipment()),
                ..Default::default()
            },
            ItemInfo {
                id: 0x4000,
                item_type: WEAPON,
                strings: test_strings(),
                equipment: Some(legacy_equipment()),
                weapon: Some(WeaponData {
                    damage: 1,
                    delay: 1,
                    dps: 1,
                    skill_type: SKILL_SWORD,
                    jug_size: 0,
                    unknown1: None,
                }),
                ..Default::default()
            },
        ],
    };

    let bytes = table.write().unwrap();
    assert_eq!(ItemInfoTable::parse(&bytes).unwrap(), table);
}

#[test]
fn neutral_entries_are_numeric_and_omit_binary_fields() {
    let table = ItemInfoTable {
        items: vec![ItemInfo {
            id: 0x4000,
            strings: Some(ItemStrings::English {
                name: b"Test sword".to_vec(),
                article_type: ARTICLE_A,
                singular_name: b"test sword".to_vec(),
                plural_name: b"test swords".to_vec(),
                description: b"A synthetic weapon.".to_vec(),
            }),
            flags: 0x8040,
            stack_size: 1,
            item_type: WEAPON,
            resource_id: 7,
            valid_targets: 1,
            equipment: Some(legacy_equipment()),
            weapon: Some(WeaponData {
                damage: 12,
                delay: 240,
                dps: 3,
                skill_type: SKILL_SWORD,
                jug_size: 0,
                unknown1: None,
            }),
            icon_bytes: vec![4, 5, 6],
            ..Default::default()
        }],
    };

    let entries = table.neutral_entries();
    let entry = &entries[0];
    assert_eq!(entry.data.id, 0x4000);
    assert_eq!(entry.data.flags_bits, 0x8040);
    assert_eq!(entry.data.item_type_code, 4);
    assert_eq!(entry.data.valid_targets_bits, 1);
    assert_eq!(entry.data.weapon.as_ref().unwrap().skill_type_code, 3);
    assert_eq!(entry.text.as_ref().unwrap().article_type_code, Some(0));
}

#[test]
fn unknown_equipment_flag_bits_survive_round_trip_and_export() {
    let mut equipment = legacy_equipment();
    equipment.races = 1;
    equipment.jobs = 1;
    let table = ItemInfoTable {
        items: vec![ItemInfo {
            id: 0x2800,
            item_type: ARMOR,
            strings: test_strings(),
            equipment: Some(equipment),
            ..Default::default()
        }],
    };

    let bytes = table.write().unwrap();
    let parsed = ItemInfoTable::parse(&bytes).unwrap();
    let exported = parsed.neutral_entries();

    assert_eq!(exported[0].data.equipment.as_ref().unwrap().races_bits, 1);
    assert_eq!(exported[0].data.equipment.as_ref().unwrap().jobs_bits, 1);
}

#[test]
fn empty_item_record_round_trips_without_icon_terminator() {
    let table = ItemInfoTable {
        items: vec![ItemInfo {
            unterminated_icon_padding: true,
            ..Default::default()
        }],
    };

    let bytes = table.write().unwrap();
    let parsed = ItemInfoTable::parse(&bytes).unwrap();
    assert_eq!(parsed.write().unwrap(), bytes);
}

#[test]
fn zero_string_compact_item_round_trips() {
    let table = ItemInfoTable {
        items: vec![ItemInfo {
            id: 1,
            item_type: ITEM,
            furnishing: Some(FurnishingData {
                element: ELEMENT_FIRE,
                storage_slots: 1,
                unknown3: None,
            }),
            ..Default::default()
        }],
    };

    let bytes = table.write().unwrap();
    let parsed = ItemInfoTable::parse(&bytes).unwrap();
    assert_eq!(parsed.write().unwrap(), bytes);
}

#[test]
fn invalid_item_string_metadata_is_rejected() {
    let table = ItemInfoTable {
        items: vec![ItemInfo {
            id: 1,
            item_type: ITEM,
            strings: test_strings(),
            furnishing: Some(FurnishingData {
                element: ELEMENT_UNDECIDED,
                storage_slots: 0,
                unknown3: None,
            }),
            ..Default::default()
        }],
    };

    let mut bytes = table.write().unwrap();
    rotate_all(&mut bytes, 5);
    bytes[0x18..0x1C].copy_from_slice(&0u32.to_le_bytes());
    rotate_all(&mut bytes, 3);
    assert!(ItemInfoTable::parse(&bytes).is_err());
}

#[test]
fn tables_of_whole_records_only_are_read() {
    assert!(ItemInfoTable::parse(&[0u8; 100]).is_err());
    assert_eq!(ItemInfoTable::parse(&[]).unwrap().items.len(), 0);
}
