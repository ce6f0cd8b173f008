use xi_tinkerer::dat_path::DatPath;
use xi_tinkerer::exports::client_resources::{
    needs_decode, normalized_catalog, resource_source, snake_case, SourceStatus,
};
use xi_tinkerer::exports::items::{merge_entries as merge_item_entries, ItemExportError, LocalizedItemText};
use xi_tinkerer::exports::key_items::{
    id_at, merge_entries, string_at, text_at, DecodedSource, DmsgContent, DmsgEntryList,
    KeyItemError, KeyItemSource,
};
use xi_tinkerer::formats::item_export::{ItemData, ItemEntry, ItemTextData};

fn item_entry(id: u32, name: &str) -> ItemEntry {
    ItemEntry {
        data: ItemData {
            id,
            flags_bits: 0,
            stack_size: 1,
            item_type_code: 1,
            resource_id: 0,
            valid_targets_bits: 0,
            equipment: None,
            weapon: None,
            puppet: None,
            instinct: None,
            furnishing: None,
            usable: None,
            currency: None,
            slip: None,
            monipulator: None,
        },
        text: Some(ItemTextData {
            name: name.as_bytes().to_vec(),
            article_type_code: Some(0),
            singular_name: Some(name.as_bytes().to_vec()),
            plural_name: Some(format!("{name}s").into_bytes()),
            description: Some(b"Synthetic item.".to_vec()),
        }),
    }
}

fn japanese_entry(id: u32, name: &str) -> ItemEntry {
    let mut entry = item_entry(id, name);
    entry.text = Some(ItemTextData {
        name: name.as_bytes().to_vec(),
        article_type_code: None,
        singular_name: None,
        plural_name: None,
        description: Some(b"Synthetic item.".to_vec()),
    });
    entry
}

#[test]
fn snake_case_converts_descriptor_names() {
    assert_eq!(snake_case("AbilityNames"), "ability_names");
    assert_eq!(snake_case("MissionsWotg"), "missions_wotg");
}

#[test]
fn snake_case_keeps_other_characters() {
    assert_eq!(snake_case("Misc1"), "misc1");
    assert_eq!(snake_case("already_snake"), "already_snake");
    assert_eq!(snake_case(""), "");
    assert_eq!(normalized_catalog("Weapons"), Some("items.json"));
    assert_eq!(normalized_catalog("KeyItems"), None);
}

#[test]
fn language_tables_pair_by_index_even_with_duplicate_ids() {
    let primary = vec![item_entry(0xFFFF, "first"), item_entry(0xFFFF, "second")];
    let japanese = vec![japanese_entry(0xFFFF, "ichi"), japanese_entry(0xFFFF, "ni")];

    let entries = merge_item_entries("currency", "english", primary, Some(&japanese)).unwrap();

    assert_eq!(entries.len(), 2);
    assert_eq!(entries[0].index, 0);
    assert_eq!(entries[1].index, 1);
    assert_eq!(entries[0].data.id, 0xFFFF);
    assert_eq!(entries[0].text.english.as_ref().unwrap().name, b"first");
    assert_eq!(entries[0].text.japanese.as_ref().unwrap().name, b"ichi");
}

#[test]
fn language_payload_mismatch_is_rejected() {
    let primary = vec![item_entry(1, "item")];
    let mut japanese = vec![japanese_entry(1, "item jp")];
    japanese[0].data.stack_size = 12;

    let error = merge_item_entries("general_items", "english", primary, Some(&japanese))
        .unwrap_err()
        .message("general_items", "english");

    assert!(error.contains("payloads differ at entry 0"));
}

#[test]
fn unexpected_language_shape_is_rejected() {
    let japanese = vec![item_entry(1, "not japanese")];

    let error = merge_item_entries("general_items", "japanese", japanese, None)
        .unwrap_err()
        .message("general_items", "japanese");

    assert_eq!(error, "Japanese item source has non-Japanese text");
}

#[test]
fn item_tables_of_different_lengths_are_rejected() {
    let primary = vec![item_entry(1, "a"), item_entry(2, "b")];
    let japanese = vec![japanese_entry(1, "a")];
    let error = merge_item_entries("weapons", "english", primary, Some(&japanese)).unwrap_err();
    assert_eq!(
        error,
        ItemExportError::CountMismatch {
            primary: 2,
            japanese: 1
        }
    );
    assert_eq!(
        error.message("weapons", "english"),
        "weapons language tables have different entry counts: 2 and 1"
    );
}

#[test]
fn localized_text_checks_the_language() {
    let mut text = LocalizedItemText {
        english: None,
        japanese: None,
    };
    assert!(text.is_empty());
    assert_eq!(
        text.set("french", None),
        Err(ItemExportError::UnsupportedLanguage)
    );
    assert!(text.set("english", item_entry(1, "x").text).is_ok());
    assert!(!text.is_empty());
    assert_eq!(
        text.set("english", japanese_entry(1, "x").text),
        Err(ItemExportError::NonEnglishText)
    );
    assert_eq!(text.english.as_ref().unwrap().name, b"x");
}

fn key_item_list(id: Option<u32>, name: Option<&str>, description: Option<&str>) -> DmsgEntryList {
    let content = vec![
        id.map_or(DmsgContent::String(Vec::new()), DmsgContent::Number),
        DmsgContent::Number(2),
        DmsgContent::String(Vec::new()),
        DmsgContent::String(Vec::new()),
        DmsgContent::String(name.unwrap_or_default().as_bytes().to_vec()),
        DmsgContent::String(name.unwrap_or_default().as_bytes().to_vec()),
        DmsgContent::String(description.unwrap_or_default().as_bytes().to_vec()),
    ];
    DmsgEntryList { content }
}

fn source(language: &str, dat_id: u32, logical: &str, selected: &str) -> KeyItemSource {
    KeyItemSource {
        language: language.to_string(),
        dat_id,
        logical_path: logical.to_string(),
        selected_path: selected.to_string(),
    }
}

#[test]
fn mismatched_language_ids_are_an_error() {
    let english = DecodedSource {
        metadata: source("english", 55_695, "ROM/0/1.DAT", "R000102/ROM/0/1.DAT"),
        lists: vec![(0, key_item_list(Some(1060), Some("English"), None))],
    };
    let japanese = DecodedSource {
        metadata: source("japanese", 55_575, "ROM/0/2.DAT", "R000103/ROM/0/2.DAT"),
        lists: vec![(0, key_item_list(Some(1061), Some("Japanese"), None))],
    };

    let error = merge_entries(english, japanese).unwrap_err();
    assert!(error.message().contains("entry 0"));
    assert!(error.message().contains("1060"));
    assert!(error.message().contains("1061"));
}

#[test]
fn key_items_keep_missing_ids_and_read_each_language_layout() {
    let english = DecodedSource {
        metadata: source("english", 55_695, "ROM/0/1.DAT", "R000102/ROM/0/1.DAT"),
        lists: vec![(3, key_item_list(None, Some("Pass"), Some("A pass.")))],
    };
    let japanese = DecodedSource {
        metadata: source("japanese", 55_575, "ROM/0/2.DAT", "R000103/ROM/0/2.DAT"),
        lists: vec![(
            3,
            DmsgEntryList {
                content: vec![
                    DmsgContent::Number(77),
                    DmsgContent::String(b"kyoka".to_vec()),
                    DmsgContent::String(Vec::new()),
                ],
            },
        )],
    };
    let resource = merge_entries(english, japanese).unwrap();
    assert_eq!(resource.name, "key_items");
    assert_eq!(resource.sources.len(), 2);
    let entry = &resource.entries[0];
    assert_eq!(entry.index, 3);
    assert_eq!(entry.id, Some(77));
    let english_text = entry.text.english.as_ref().unwrap();
    assert_eq!(english_text.name.as_deref(), Some(&b"Pass"[..]));
    assert_eq!(english_text.plural_name.as_deref(), Some(&b"Pass"[..]));
    assert_eq!(english_text.description.as_deref(), Some(&b"A pass."[..]));
    let japanese_text = entry.text.japanese.as_ref().unwrap();
    assert_eq!(japanese_text.name.as_deref(), Some(&b"kyoka"[..]));
    assert!(japanese_text.description.is_none());
}

#[test]
fn key_item_tables_must_line_up() {
    let english = DecodedSource {
        metadata: source("english", 1, "a", "b"),
        lists: vec![(0, key_item_list(Some(1), Some("x"), None))],
    };
    let japanese = DecodedSource {
        metadata: source("japanese", 2, "c", "d"),
        lists: vec![],
    };
    let error = merge_entries(english, japanese).unwrap_err();
    assert_eq!(
        error,
        KeyItemError::CountMismatch {
            english: 1,
            japanese: 0
        }
    );
    assert_eq!(
        error.message(),
        "Key item language tables have different entry counts: 1 and 0"
    );
}

#[test]
fn list_accessors_skip_empty_strings_and_numbers() {
    let list = key_item_list(Some(9), None, Some("desc"));
    assert_eq!(id_at(Some(&list)), Some(9));
    assert_eq!(string_at(Some(&list), 4), None);
    assert_eq!(string_at(Some(&list), 1), None);
    assert_eq!(string_at(Some(&list), 6), Some(b"desc".to_vec()));
    assert_eq!(string_at(Some(&list), 60), None);
    assert!(text_at(Some(&list), "german").is_none());
    assert!(text_at(None, "english").is_none());
}

#[test]
fn resource_sources_are_absent_missing_selected_or_failed() {
    let path = DatPath { rom_id: 1, folder_id: 0, file_id: 11 };

    let absent = resource_source(false, 55465, None, None, None, None);
    assert_eq!(absent.status, SourceStatus::Absent);
    assert_eq!(absent.language(), "english");
    assert!(absent.logical_path.is_none());

    let missing = resource_source(true, 55465, Some(path), None, None, None);
    assert_eq!(missing.status, SourceStatus::Missing);
    assert_eq!(missing.language(), "japanese");
    assert_eq!(missing.logical_path.as_deref(), Some("ROM/0/11.DAT"));
    assert!(missing.selected_path.is_none());

    let selected = Some("R000101/ROM/0/11.DAT".to_string());
    assert!(needs_decode(Some(path), &selected, None));
    assert!(!needs_decode(Some(path), &selected, Some("items.json")));
    assert!(!needs_decode(Some(path), &None, None));

    let decoded = resource_source(false, 55465, Some(path), selected.clone(), None, None);
    assert_eq!(decoded.status, SourceStatus::Selected);
    assert!(decoded.has_data);

    let normalized = resource_source(false, 73, Some(path), selected.clone(), Some("items.json"), None);
    assert_eq!(normalized.status, SourceStatus::Selected);
    assert!(!normalized.has_data);
    assert_eq!(normalized.normalized_catalog, Some("items.json"));

    let failed = resource_source(false, 12, Some(path), selected, None, Some("invalid".to_string()));
    assert_eq!(failed.status, SourceStatus::DecodeFailed);
    assert_eq!(failed.error.as_deref(), Some("invalid"));
    assert_eq!(failed.selected_path.as_deref(), Some("R000101/ROM/0/11.DAT"));
    assert!(!failed.has_data);
}
