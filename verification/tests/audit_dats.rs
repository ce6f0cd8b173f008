use xi_tinkerer::audit::{
    failed_file, failed_recognized_file, first_difference, missing_file, round_trip_verdict,
    summarize, supported_formats, unrecognized_file, AuditStatus, DatAuditFile, FailureKind,
    FormatKind,
};
use xi_tinkerer::dat_path::{
    parse_dat_path, stable_relative_path, xbox_missing_package_name, xbox_package_index,
    xbox_package_name, DatPath,
};
use xi_tinkerer::format_detect::{detect_format, known_formats_by_id, FormatsById};
use xi_tinkerer::id_mapping::DatIdMapping;
use xi_tinkerer::xbox::{
    candidates_by_path, classify_xbox_candidates, group_xbox_mappings, project_client_format_mappings,
    select_xbox_candidate, summarize_xbox_formats, XboxClientMappingStatus, XboxMapping,
    XboxMappingResult, XboxPackageCandidate, XboxPackageFile,
};

fn dat_path(rom_id: u8, folder_id: u16, file_id: u16) -> DatPath {
    DatPath {
        rom_id,
        folder_id,
        file_id,
    }
}

fn xbox_mapping(rom_id: u8, folder_id: u16, file_id: u16, ids: &[u32]) -> XboxMapping {
    XboxMapping {
        dat_path: dat_path(rom_id, folder_id, file_id),
        ids: ids.to_vec(),
    }
}

fn xbox_candidate(
    package: &str,
    rom_id: u8,
    folder_id: u16,
    file_id: u16,
    physical_path: &str,
) -> XboxPackageCandidate {
    XboxPackageCandidate {
        package: package.to_string(),
        dat_path: dat_path(rom_id, folder_id, file_id),
        physical_path: physical_path.to_string(),
    }
}

fn no_probes() -> Vec<bool> {
    vec![false; 14]
}

#[test]
fn summary_counts_recognized_and_failures() {
    let files = vec![
        DatAuditFile {
            id: 1,
            path: "ROM/1/1.DAT".to_string(),
            status: AuditStatus::Passed,
            format: Some("events".to_string()),
            failure_kind: None,
            error: None,
        },
        DatAuditFile {
            id: 2,
            path: "ROM/1/2.DAT".to_string(),
            status: AuditStatus::Missing,
            format: None,
            failure_kind: Some(FailureKind::Missing),
            error: Some("missing".to_string()),
        },
        DatAuditFile {
            id: 4,
            path: "ROM/1/4.DAT".to_string(),
            status: AuditStatus::Unrecognized,
            format: None,
            failure_kind: None,
            error: None,
        },
        DatAuditFile {
            id: 3,
            path: "ROM/1/3.DAT".to_string(),
            status: AuditStatus::Failed,
            format: Some("zone_data".to_string()),
            failure_kind: Some(FailureKind::Write),
            error: Some("Can't write DAT".to_string()),
        },
    ];

    let summary = summarize(&files);
    assert_eq!(summary.total, 4);
    assert_eq!(summary.missing, 1);
    assert_eq!(summary.recognized, 2);
    assert_eq!(summary.round_trip_ok, 1);
    assert_eq!(summary.unrecognized, 1);
    assert_eq!(summary.failed, 1);
}

#[test]
fn xbox_package_formula_covers_edges_and_package_zero() {
    assert_eq!(xbox_package_index(dat_path(1, 0, 10)), 11);
    assert_eq!(xbox_package_index(dat_path(1, 0, 11)), 0);
    assert_eq!(xbox_package_index(dat_path(1, 1, 0)), 9);
    assert_eq!(xbox_package_name(0), "R000100");
    assert_eq!(xbox_package_name(1), "R000101");
    assert_eq!(xbox_package_name(11), "R000111");
    assert_eq!(xbox_missing_package_name(dat_path(1, 0, 11)), "0001");
}

#[test]
fn mapped_format_detection_covers_simple_japanese_zone_and_alias_ids() {
    let format_mappings = DatIdMapping::get().format_mappings();
    let formats_by_id = known_formats_by_id(&format_mappings);
    let missing = no_probes();
    assert_eq!(
        detect_format(&[100], &formats_by_id, &missing),
        Some(FormatKind::ZoneData)
    );
    assert_eq!(
        detect_format(&[83_891], &formats_by_id, &missing),
        Some(FormatKind::ZoneData)
    );
    assert_eq!(
        detect_format(&[81], &formats_by_id, &missing),
        Some(FormatKind::MenuTable)
    );
    assert_eq!(
        detect_format(&[55_581], &formats_by_id, &missing),
        Some(FormatKind::DmsgTable)
    );
    assert_eq!(
        detect_format(&[100, 101], &formats_by_id, &missing),
        Some(FormatKind::ZoneData)
    );
    assert!(detect_format(&[99], &formats_by_id, &missing).is_none());
}

#[test]
fn client_format_mapping_projection_distinguishes_selected_missing_and_absent() {
    let format_mappings = vec![
        (1, FormatKind::Events),
        (2, FormatKind::Dialog),
        (3, FormatKind::ZoneData),
    ];
    let id_map = vec![(1, dat_path(1, 0, 11)), (2, dat_path(1, 0, 1))];
    let selected_file = XboxPackageFile {
        package: "R000100".to_string(),
        logical_path: "ROM/0/11.DAT".to_string(),
        physical_path: "R000100/ROM/0/11.DAT".to_string(),
    };
    let selected_files = vec![selected_file];

    let projected = project_client_format_mappings(&format_mappings, &id_map, &selected_files);

    assert_eq!(projected.len(), 3);
    assert_eq!(projected[0].status, XboxClientMappingStatus::Selected);
    assert_eq!(projected[0].package.as_deref(), Some("R000100"));
    assert_eq!(
        projected[0].selected_path.as_deref(),
        Some("R000100/ROM/0/11.DAT")
    );
    assert_eq!(projected[1].status, XboxClientMappingStatus::Missing);
    assert_eq!(projected[1].package.as_deref(), Some("R000102"));
    assert!(projected[1].selected_path.is_none());
    assert_eq!(projected[2].status, XboxClientMappingStatus::Absent);
    assert!(projected[2].logical_path.is_none());
    assert!(projected[2].package.is_none());
}

#[test]
fn conflicting_mapped_formats_are_not_selected_arbitrarily() {
    let formats_by_id = FormatsById {
        entries: vec![(1, vec![FormatKind::Events]), (2, vec![FormatKind::ZoneData])],
    };
    assert!(detect_format(&[1, 2], &formats_by_id, &no_probes()).is_none());
}

#[test]
fn xbox_mapping_groups_aliases_and_sorts_ids() {
    let id_map = vec![
        (9, dat_path(1, 0, 1)),
        (3, dat_path(1, 0, 0)),
        (2, dat_path(1, 0, 0)),
    ];

    let mappings = group_xbox_mappings(&id_map);
    assert_eq!(mappings.len(), 2);
    assert_eq!(mappings[0].ids, vec![2, 3]);
    assert_eq!(mappings[1].ids, vec![9]);
}

#[test]
fn xbox_classification_prefers_package_zero_override_and_base_fallback() {
    let mappings = vec![
        xbox_mapping(1, 0, 11, &[20, 21]),
        xbox_mapping(1, 0, 23, &[22]),
        xbox_mapping(1, 0, 35, &[23]),
        xbox_mapping(1, 0, 0, &[30]),
    ];
    let candidates = vec![
        xbox_candidate("R000100", 1, 0, 11, "R000100/ROM/0/11.DAT"),
        xbox_candidate("R000101", 1, 0, 11, "R000101/ROM/0/11.DAT"),
        xbox_candidate("0001", 1, 0, 11, "0001/ROM/0/11.DAT"),
        xbox_candidate("0001", 1, 0, 23, "0001/ROM/0/23.DAT"),
        xbox_candidate("R000100", 1, 0, 0, "R000100/ROM/0/0.DAT"),
        xbox_candidate("R000101", 0, 0, 0, "R000101/ROM0/0/0.DAT"),
        xbox_candidate("0001", 0, 0, 0, "0001/ROM0/0/0.DAT"),
        xbox_candidate("R000101", 1, 0, 0, "R000101/ROM/0/0.DAT"),
    ];

    let classification = classify_xbox_candidates(&mappings, &candidates);
    assert_eq!(classification.selected_dats.len(), 3);
    assert_eq!(classification.missing_mapped_paths.len(), 1);
    assert_eq!(classification.unreferenced_selected_dats.len(), 1);
    assert_eq!(classification.non_selected_mounted_shadow_dats.len(), 3);
    assert_eq!(classification.r000100_unmounted_dats.len(), 1);
    assert_eq!(
        classification.selected_dats[0].physical_path,
        "0001/ROM/0/23.DAT"
    );
    assert_eq!(
        classification.selected_dats[1].physical_path,
        "R000100/ROM/0/11.DAT"
    );
    assert_eq!(
        classification.selected_dats[2].physical_path,
        "R000101/ROM/0/0.DAT"
    );
    assert_eq!(
        classification.missing_mapped_paths[0].expected_path,
        "0001/ROM/0/35.DAT"
    );
    assert_eq!(
        classification.r000100_unmounted_dats[0].physical_path,
        "R000100/ROM/0/0.DAT"
    );
}

#[test]
fn xbox_classification_has_stable_relative_json_and_accounting() {
    let mappings = vec![xbox_mapping(1, 0, 0, &[2]), xbox_mapping(1, 0, 11, &[1, 3])];
    let candidates = vec![
        xbox_candidate("R000101", 1, 0, 0, "R000101/ROM/0/0.DAT"),
        xbox_candidate("0001", 1, 0, 11, "0001/ROM/0/11.DAT"),
    ];
    let classification = classify_xbox_candidates(&mappings, &candidates);

    assert_eq!(classification.selected_dats.len(), 2);
    assert_eq!(classification.missing_mapped_paths.len(), 0);
    assert_eq!(
        classification.selected_dats[0].physical_path,
        "0001/ROM/0/11.DAT"
    );
    assert_eq!(
        classification.selected_dats[1].physical_path,
        "R000101/ROM/0/0.DAT"
    );
    assert_eq!(
        candidates.len(),
        classification.selected_dats.len()
            + classification.unreferenced_selected_dats.len()
            + classification.non_selected_mounted_shadow_dats.len()
            + classification.r000100_unmounted_dats.len()
    );
    for file in &classification.selected_dats {
        for text in [&file.package, &file.logical_path, &file.physical_path] {
            assert!(!text.contains("C:\\"));
            assert!(!text.contains("<ffxi-root>"));
        }
    }
}

fn mapping_result(
    logical_path: &str,
    ids: Vec<u32>,
    selected_path: Option<&str>,
    status: AuditStatus,
    format: Option<&str>,
    failure_kind: Option<FailureKind>,
    error: Option<&str>,
) -> XboxMappingResult {
    XboxMappingResult {
        logical_path: logical_path.to_string(),
        ids,
        package: "0001".to_string(),
        selected_path: selected_path.map(str::to_string),
        status,
        format: format.map(str::to_string),
        failure_kind,
        error: error.map(str::to_string),
    }
}

#[test]
fn xbox_format_results_count_selected_unique_files() {
    let mappings = vec![
        mapping_result(
            "ROM/0/1.DAT",
            vec![1],
            Some("0001/ROM/0/1.DAT"),
            AuditStatus::Passed,
            Some("events"),
            None,
            None,
        ),
        mapping_result(
            "ROM/0/2.DAT",
            vec![2, 3],
            Some("0001/ROM/0/2.DAT"),
            AuditStatus::Failed,
            Some("events"),
            Some(FailureKind::Parse),
            Some("synthetic failure"),
        ),
        mapping_result(
            "ROM/0/4.DAT",
            vec![4],
            Some("0001/ROM/0/4.DAT"),
            AuditStatus::Unrecognized,
            None,
            None,
            None,
        ),
        mapping_result(
            "ROM/0/5.DAT",
            vec![5],
            None,
            AuditStatus::Missing,
            None,
            Some(FailureKind::Missing),
            Some("missing"),
        ),
    ];

    let formats = summarize_xbox_formats(&mappings);
    let events = formats
        .iter()
        .find(|result| result.format == "events")
        .unwrap();
    let unrecognized = formats
        .iter()
        .find(|result| result.format == "unrecognized")
        .unwrap();
    assert_eq!(events.selected, 2);
    assert_eq!(events.recognized, 2);
    assert_eq!(events.round_trip_ok, 1);
    assert_eq!(events.failed, 1);
    assert_eq!(unrecognized.selected, 1);
}

#[test]
fn xbox_path_parser_rejects_tables_and_normalizes_dat_paths() {
    assert_eq!(
        parse_dat_path("0001/ROM/12/34.dat"),
        Some(DatPath {
            rom_id: 1,
            folder_id: 12,
            file_id: 34,
        })
    );
    assert!(parse_dat_path("0001/VTABLE.DAT").is_none());
    assert!(parse_dat_path("0001/ROM/not-a-folder/1.DAT").is_none());
    assert!(parse_dat_path("0001/extra/ROM/1/2.DAT").is_none());
}

#[test]
fn dat_path_parser_reads_numbered_rom_directories_and_skips_dot_components() {
    assert_eq!(parse_dat_path("R000103/rom4/7/+8.Dat"), Some(dat_path(4, 7, 8)));
    assert_eq!(parse_dat_path("0001/./ROM2//3/4.DAT"), Some(dat_path(2, 3, 4)));
    assert!(parse_dat_path("0001/ROM/1/70000.DAT").is_none());
    assert!(parse_dat_path("0001/ROM256/1/2.DAT").is_none());
    assert!(parse_dat_path("0001/DATA/1/2.DAT").is_none());
    assert!(parse_dat_path("0001/ROM/1/2.BIN").is_none());
}

#[test]
fn logical_paths_name_the_first_rom_without_a_number() {
    assert_eq!(dat_path(1, 0, 11).logical_path(), "ROM/0/11.DAT");
    assert_eq!(dat_path(3, 12, 345).logical_path(), "ROM3/12/345.DAT");
    assert_eq!(stable_relative_path("0001\\ROM\\1\\2.DAT"), "0001/ROM/1/2.DAT");
}

#[test]
fn supported_formats_are_listed_in_declaration_order() {
    let formats = supported_formats();
    assert_eq!(formats.len(), 14);
    assert_eq!(formats[0], FormatKind::AutoTranslate);
    assert_eq!(formats[13], FormatKind::ZoneData);
    assert_eq!(formats[6].name(), "item_info_table");
}

#[test]
fn probes_decide_between_several_mapped_formats_and_unmapped_ids() {
    let table = known_formats_by_id(&[
        (1, FormatKind::Events),
        (2, FormatKind::ZoneData),
        (1, FormatKind::Events),
    ]);
    assert_eq!(table.entries.len(), 2);
    assert_eq!(table.entries[0].1, vec![FormatKind::Events]);
    let mut probes = no_probes();
    probes[13] = true;
    assert_eq!(detect_format(&[1, 2], &table, &probes), Some(FormatKind::ZoneData));
    probes[4] = true;
    assert_eq!(detect_format(&[1, 2], &table, &probes), None);
    // Without a mapped format, zone data is never guessed.
    let mut only_zone = no_probes();
    only_zone[13] = true;
    assert_eq!(detect_format(&[7], &table, &only_zone), None);
    only_zone[1] = true;
    assert_eq!(detect_format(&[7], &table, &only_zone), Some(FormatKind::Dialog));
}

#[test]
fn candidate_selection_ignores_case_and_prefers_the_later_duplicate() {
    let candidates = vec![
        xbox_candidate("R000111", 1, 0, 10, "r000111/rom/0/10.dat"),
        xbox_candidate("R000111", 1, 0, 10, "R000111/ROM/0/10.DAT"),
    ];
    let index = candidates_by_path(&candidates);
    assert_eq!(select_xbox_candidate(dat_path(1, 0, 10), &index), Some(1));
    assert_eq!(select_xbox_candidate(dat_path(1, 0, 9), &index), None);
}

#[test]
fn audit_records_failures_and_round_trip_differences() {
    let file = failed_file(5, "ROM/1/5.DAT".to_string(), FailureKind::Read, "gone".to_string());
    assert_eq!(file.status, AuditStatus::Failed);
    assert!(file.format.is_none());
    let file = failed_recognized_file(
        5,
        "ROM/1/5.DAT".to_string(),
        FormatKind::Dialog,
        FailureKind::Parse,
        "bad".to_string(),
    );
    assert_eq!(file.format.as_deref(), Some("dialog"));
    assert_eq!(missing_file(1, "a".to_string(), "x".to_string()).status, AuditStatus::Missing);
    assert_eq!(unrecognized_file(1, "a".to_string()).status, AuditStatus::Unrecognized);

    assert_eq!(first_difference(&[1, 2, 3], &[1, 2, 4]), 2);
    assert_eq!(first_difference(&[1, 2], &[1, 2, 4]), 2);
    let same = round_trip_verdict(1, "p".to_string(), FormatKind::Events, &[1, 2], &[1, 2]);
    assert_eq!(same.status, AuditStatus::Passed);
    assert_eq!(same.format.as_deref(), Some("events"));
    let differ = round_trip_verdict(1, "p".to_string(), FormatKind::Events, &[1, 2, 3], &[1, 9]);
    assert_eq!(differ.status, AuditStatus::Failed);
    assert_eq!(differ.failure_kind, Some(FailureKind::RoundTrip));
    assert_eq!(
        differ.error.as_deref(),
        Some("encoded bytes differ (original length 3, encoded length 2, first difference 1)")
    );
}
