use xi_tinkerer::error::DatError;
use xi_tinkerer::formats::item_info::ItemInfoTable;
use xi_tinkerer::audit::{AuditStatus, FailureKind, FormatKind};
use xi_tinkerer::dat_path::DatPath;
use xi_tinkerer::format_detect::{audit_bytes, known_formats_by_id, probe_all, FormatsById};
use xi_tinkerer::formats::dialog::Dialog;
use xi_tinkerer::formats::entity_names::{EntityName, EntityNames};
use xi_tinkerer::dat_path::stable_relative_path;
use xi_tinkerer::messages::{replace_all_exec, sanitize_error};
use xi_tinkerer::rom_tables::{rom_id_map, RomTable};

fn dialog_bytes() -> Vec<u8> {
    Dialog {
        entries: vec![(0, b"hello".to_vec()), (1, b"world".to_vec())],
    }
    .write()
    .unwrap()
}

#[test]
fn rom_tables_map_ids_to_folders_and_files() {
    let tables = vec![RomTable {
        rom_id: 1,
        vtable: vec![1, 1, 1],
        ftable: vec![11, 0, 11, 0, 0, 0],
    }];
    let map = rom_id_map(&tables);
    let path = |folder_id, file_id| DatPath {
        rom_id: 1,
        folder_id,
        file_id,
    };
    assert_eq!(map, vec![(0, path(0, 11)), (1, path(0, 11)), (2, path(0, 0))]);
}

#[test]
fn rom_tables_split_the_combined_path_and_let_the_last_rom_decide() {
    let combined: u16 = (200 << 7) | 42;
    let tables = vec![
        RomTable {
            rom_id: 1,
            vtable: vec![0, 1, 1],
            ftable: [0u16, combined, 5].iter().flat_map(|v| v.to_le_bytes()).collect(),
        },
        RomTable {
            rom_id: 2,
            vtable: vec![0, 0, 2, 2],
            ftable: [0u16, 0, 7, 9].iter().flat_map(|v| v.to_le_bytes()).collect(),
        },
    ];
    let map = rom_id_map(&tables);
    assert_eq!(
        map,
        vec![
            (1, DatPath { rom_id: 1, folder_id: 200, file_id: 42 }),
            (2, DatPath { rom_id: 2, folder_id: 0, file_id: 7 }),
            (3, DatPath { rom_id: 2, folder_id: 0, file_id: 9 }),
        ]
    );
    assert_eq!(rom_id_map(&[]), vec![]);
}

#[test]
fn probes_run_in_declaration_order() {
    let checks = probe_all(&dialog_bytes());
    assert_eq!(checks.len(), 14);
    for (rank, check) in checks.iter().enumerate() {
        assert_eq!(*check, rank == 1, "rank {}", rank);
    }
    let names = EntityNames { names: vec![EntityName::new(5, b"Ayame".to_vec())] }.write().unwrap();
    let checks = probe_all(&names);
    assert!(checks[3]);
    assert!(!checks[1]);
}

#[test]
fn audit_of_bytes_passes_a_dialog_that_round_trips() {
    let table = known_formats_by_id(&[(7, FormatKind::Dialog)]);
    let file = audit_bytes(7, "ROM/0/7.DAT".to_string(), &[7], &table, &dialog_bytes());
    assert_eq!(file.status, AuditStatus::Passed);
    assert_eq!(file.format.as_deref(), Some("dialog"));
    assert_eq!(file.failure_kind, None);
}

#[test]
fn audit_of_bytes_reports_parse_failures_and_missing_codecs() {
    let table = known_formats_by_id(&[(7, FormatKind::Dialog), (8, FormatKind::Events)]);
    let file = audit_bytes(7, "ROM/0/7.DAT".to_string(), &[7], &table, &[1, 2, 3]);
    assert_eq!(file.status, AuditStatus::Failed);
    assert_eq!(file.format.as_deref(), Some("dialog"));
    assert_eq!(file.failure_kind, Some(FailureKind::Parse));

    let file = audit_bytes(8, "ROM/0/8.DAT".to_string(), &[8], &table, &[1, 2, 3]);
    assert_eq!(file.status, AuditStatus::Failed);
    assert_eq!(file.format.as_deref(), Some("events"));
    assert_eq!(
        file.error.as_deref(),
        Some("no codec for this format in this library")
    );
}

#[test]
fn audit_of_bytes_leaves_unknown_data_unrecognized() {
    let table = FormatsById { entries: vec![] };
    let file = audit_bytes(9, "ROM/0/9.DAT".to_string(), &[9], &table, &[1, 2, 3]);
    assert_eq!(file.status, AuditStatus::Unrecognized);
    assert!(file.format.is_none());
    assert!(file.error.is_none());
}

#[test]
fn replacing_matches_str_replace() {
    for (s, pat, rep) in [
        ("aaaa", "aa", "b"),
        ("abcabc", "bc", "XYZ"),
        ("nothing here", "zz", "q"),
        ("", "a", "b"),
        ("aaa", "", "b"),
        ("C:\\ffxi\\ROM\\0\\1.DAT", "\\", "/"),
    ] {
        let expected = if pat.is_empty() { s.to_string() } else { s.replace(pat, rep) };
        assert_eq!(replace_all_exec(s, pat, rep), expected);
    }
    assert_eq!(stable_relative_path("a\\b\\\\c"), "a/b//c");
}

#[test]
fn errors_name_placeholders_instead_of_client_paths() {
    let replacements = vec![
        ("C:\\ffxi\\ROM\\0\\1.DAT".to_string(), "<dat>".to_string()),
        ("C:\\ffxi".to_string(), "<ffxi-root>".to_string()),
        (String::new(), "<ignored>".to_string()),
    ];
    let message = sanitize_error(
        "No such file (os error 2): C:\\ffxi\\ROM\\0\\1.DAT under C:\\ffxi",
        &replacements,
    );
    assert_eq!(message, "No such file (os error 2): <dat> under <ffxi-root>");
    assert!(!message.contains("ffxi/"));
}

#[test]
fn errors_do_not_embed_absolute_root_or_dat_paths() {
    let root = std::path::PathBuf::from(r"C:\retail\FINAL FANTASY XI");
    let path = root.join(r"ROM\1\2.DAT");
    let error = format!("Could not read {} below {}", path.display(), root.display());

    let replacements = vec![
        (path.to_string_lossy().to_string(), "<dat>".to_string()),
        (root.to_string_lossy().to_string(), "<ffxi-root>".to_string()),
    ];
    let sanitized = sanitize_error(&error, &replacements);
    assert!(!sanitized.contains("C:/retail"));
    assert!(sanitized.contains("<dat>"));
    assert!(sanitized.contains("<ffxi-root>"));
}

#[test]
fn item_tables_of_the_wrong_length_say_so() {
    assert_eq!(ItemInfoTable::parse(&[0u8; 5]).err(), Some(DatError::ItemTableLength(5)));
    let table = known_formats_by_id(&[(4, FormatKind::ItemInfoTable)]);
    let file = audit_bytes(4, "ROM/0/4.DAT".to_string(), &[4], &table, &[0u8; 5]);
    assert_eq!(file.failure_kind, Some(FailureKind::Parse));
    assert_eq!(
        file.error.as_deref(),
        Some("Length does not match an item info DAT: 5")
    );
}

#[test]
fn sanitized_messages_hold_no_root() {
    let replacements = vec![
        ("/srv/ffxi/ROM/1/2.DAT".to_string(), "<dat>".to_string()),
        ("/srv/ffxi".to_string(), "<ffxi-root>".to_string()),
    ];
    let message = sanitize_error(
        "read /srv/ffxi/ROM/1/2.DAT: gone; /srv/ffxi/srv/ffxi again /srv/ffxi",
        &replacements,
    );
    assert!(!message.contains("/srv/ffxi"));
    assert_eq!(message, "read <dat>: gone; <ffxi-root><ffxi-root> again <ffxi-root>");
}
