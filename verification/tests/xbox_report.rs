use xi_tinkerer::exports::client_globals::{client_global_sources, ClientGlobal, ClientGlobalsError};
use xi_tinkerer::exports::zone_text::{zone_text_sources, ZoneTextError};
use xi_tinkerer::audit::{missing_file, summarize, AuditStatus, DatAuditFile, FailureKind};
use xi_tinkerer::dat_descriptor::{ConversionError, DatDescriptor, ZoneNames};
use xi_tinkerer::dat_path::DatPath;
use xi_tinkerer::id_mapping::DatIdMapping;
use xi_tinkerer::xbox::{
    classify_xbox_candidates, mapping_selection, missing_selection_audit, selected_files_index,
    summarize_xbox_audit, xbox_duplicate_mappings, xbox_mapped_ids, xbox_mapping_result,
    XboxClientFormatMapping, XboxClientMappingStatus, XboxMapping, XboxMappingResult,
    XboxPackageCandidate,
};

fn dat_path(rom_id: u8, folder_id: u16, file_id: u16) -> DatPath {
    DatPath {
        rom_id,
        folder_id,
        file_id,
    }
}

fn mapping(rom_id: u8, folder_id: u16, file_id: u16, ids: &[u32]) -> XboxMapping {
    XboxMapping {
        dat_path: dat_path(rom_id, folder_id, file_id),
        ids: ids.to_vec(),
    }
}

fn candidate(package: &str, rom_id: u8, folder_id: u16, file_id: u16, physical: &str) -> XboxPackageCandidate {
    XboxPackageCandidate {
        package: package.to_string(),
        dat_path: dat_path(rom_id, folder_id, file_id),
        physical_path: physical.to_string(),
    }
}

#[test]
fn mapped_ids_are_flattened_and_sorted_by_id() {
    let mappings = vec![mapping(1, 0, 11, &[20, 5]), mapping(1, 0, 3, &[7])];
    let ids = xbox_mapped_ids(&mappings);
    let pairs: Vec<(u32, String)> = ids.iter().map(|m| (m.id, m.logical_path.clone())).collect();
    assert_eq!(
        pairs,
        vec![
            (5, "ROM/0/11.DAT".to_string()),
            (7, "ROM/0/3.DAT".to_string()),
            (20, "ROM/0/11.DAT".to_string()),
        ]
    );
}

#[test]
fn duplicate_mappings_list_paths_with_several_ids() {
    let mappings = vec![
        mapping(1, 0, 11, &[20, 21, 22]),
        mapping(1, 0, 3, &[7]),
        mapping(2, 1, 4, &[8, 9]),
    ];
    let duplicates = xbox_duplicate_mappings(&mappings);
    assert_eq!(duplicates.len(), 2);
    assert_eq!(duplicates[0].logical_path, "ROM/0/11.DAT");
    assert_eq!(duplicates[0].ids, vec![20, 21, 22]);
    assert_eq!(duplicates[1].logical_path, "ROM2/1/4.DAT");
    assert_eq!(duplicates[1].ids, vec![8, 9]);
}

#[test]
fn mapping_results_take_the_selected_file_or_report_it_missing() {
    let mappings = vec![mapping(1, 0, 11, &[20, 21]), mapping(1, 0, 35, &[23])];
    let candidates = vec![candidate("R000100", 1, 0, 11, "R000100/ROM/0/11.DAT")];
    let classification = classify_xbox_candidates(&mappings, &candidates);
    let index = selected_files_index(&classification.selected_dats);

    let first = mapping_selection(mappings[0].dat_path, &classification.selected_dats, &index);
    assert_eq!(first, Some(0));
    let audit = DatAuditFile {
        id: 0,
        path: "ROM/0/11.DAT".to_string(),
        status: AuditStatus::Passed,
        format: Some("events".to_string()),
        failure_kind: None,
        error: None,
    };
    let result = xbox_mapping_result(&mappings[0], &classification.selected_dats, first, audit);
    assert_eq!(result.logical_path, "ROM/0/11.DAT");
    assert_eq!(result.ids, vec![20, 21]);
    assert_eq!(result.package, "R000100");
    assert_eq!(result.selected_path.as_deref(), Some("R000100/ROM/0/11.DAT"));
    assert_eq!(result.status, AuditStatus::Passed);
    assert_eq!(result.format.as_deref(), Some("events"));

    let second = mapping_selection(mappings[1].dat_path, &classification.selected_dats, &index);
    assert_eq!(second, None);
    let missing = missing_selection_audit("ROM/0/35.DAT".to_string());
    assert_eq!(missing.status, AuditStatus::Missing);
    assert_eq!(missing.failure_kind, Some(FailureKind::Missing));
    assert_eq!(missing.error.as_deref(), Some("selected package DAT is missing"));
    let result = xbox_mapping_result(&mappings[1], &classification.selected_dats, second, missing);
    assert_eq!(result.package, "0001");
    assert!(result.selected_path.is_none());
    assert_eq!(result.status, AuditStatus::Missing);
}

fn result(status: AuditStatus, format: Option<&str>) -> XboxMappingResult {
    XboxMappingResult {
        logical_path: "ROM/0/1.DAT".to_string(),
        ids: vec![1],
        package: "0001".to_string(),
        selected_path: Some("0001/ROM/0/1.DAT".to_string()),
        status,
        format: format.map(str::to_string),
        failure_kind: None,
        error: None,
    }
}

fn client(status: XboxClientMappingStatus) -> XboxClientFormatMapping {
    XboxClientFormatMapping {
        id: 1,
        format: "events".to_string(),
        logical_path: None,
        package: None,
        selected_path: None,
        status,
    }
}

#[test]
fn xbox_summary_counts_every_list() {
    let mappings = vec![
        mapping(1, 0, 11, &[20, 21, 22]),
        mapping(1, 0, 23, &[24]),
        mapping(1, 0, 35, &[25, 26]),
    ];
    let candidates = vec![
        candidate("R000100", 1, 0, 11, "R000100/ROM/0/11.DAT"),
        candidate("0001", 1, 0, 23, "0001/ROM/0/23.DAT"),
        candidate("R000100", 1, 0, 99, "R000100/ROM/0/99.DAT"),
    ];
    let classification = classify_xbox_candidates(&mappings, &candidates);
    let mapped_ids = xbox_mapped_ids(&mappings);
    let duplicates = xbox_duplicate_mappings(&mappings);
    let clients = vec![
        client(XboxClientMappingStatus::Selected),
        client(XboxClientMappingStatus::Selected),
        client(XboxClientMappingStatus::Absent),
    ];
    let unique = vec![
        result(AuditStatus::Passed, Some("events")),
        result(AuditStatus::Failed, Some("dialog")),
        result(AuditStatus::Failed, None),
        result(AuditStatus::Unrecognized, None),
    ];
    let summary = summarize_xbox_audit(
        &mapped_ids,
        &mappings,
        &duplicates,
        &candidates,
        &classification,
        &clients,
        &unique,
    );
    assert_eq!(summary.mapped_ids, 6);
    assert_eq!(summary.unique_mappings, 3);
    assert_eq!(summary.duplicate_id_mappings, 2);
    assert_eq!(summary.duplicate_id_entries, 3);
    assert_eq!(summary.package_candidates, 3);
    assert_eq!(summary.selected_dats, 2);
    assert_eq!(summary.missing_mapped_paths, 1);
    assert_eq!(summary.r000100_unmounted_dats, 1);
    assert_eq!(summary.package_zero_overrides, 1);
    assert_eq!(summary.package_zero_base_fallbacks, 1);
    assert_eq!(summary.client_format_mappings, 3);
    assert_eq!(summary.selected_client_format_mappings, 2);
    assert_eq!(summary.missing_client_format_mappings, 0);
    assert_eq!(summary.absent_client_format_mappings, 1);
    assert_eq!(
        summary.selected_client_format_mappings
            + summary.missing_client_format_mappings
            + summary.absent_client_format_mappings,
        summary.client_format_mappings
    );
    assert_eq!(summary.recognized, 2);
    assert_eq!(summary.round_trip_ok, 1);
    assert_eq!(summary.unrecognized, 1);
    assert_eq!(summary.failed, 2);
}

#[test]
fn status_counts_add_up_to_the_total() {
    let files = vec![
        missing_file(1, "ROM/0/1.DAT".to_string(), "gone".to_string()),
        DatAuditFile {
            id: 2,
            path: "ROM/0/2.DAT".to_string(),
            status: AuditStatus::Passed,
            format: Some("dialog".to_string()),
            failure_kind: None,
            error: None,
        },
        DatAuditFile {
            id: 3,
            path: "ROM/0/3.DAT".to_string(),
            status: AuditStatus::Unrecognized,
            format: None,
            failure_kind: None,
            error: None,
        },
    ];
    let summary = summarize(&files);
    assert_eq!(
        summary.round_trip_ok + summary.missing + summary.unrecognized + summary.failed,
        summary.total
    );
    assert_eq!(summary.total, 3);
}

fn zones() -> ZoneNames {
    ZoneNames {
        entries: vec![
            (0, "residential_area".to_string()),
            (50, "aht_urhgan_whitegate".to_string()),
            (230, "southern_san_doria".to_string()),
        ],
    }
}

#[test]
fn yaml_files_lead_back_to_their_dats() {
    let mapping = DatIdMapping::get();
    let zones = zones();
    let descriptors = vec![
        DatDescriptor::AbilityNames,
        DatDescriptor::DataMenu,
        DatDescriptor::WeatherTypes,
        DatDescriptor::Armor,
        DatDescriptor::Instincts,
        DatDescriptor::UnityDialogs,
        DatDescriptor::Dialog(230),
        DatDescriptor::Dialog2(50),
        DatDescriptor::EntityNames(230),
        DatDescriptor::Events(230),
        DatDescriptor::ZoneData(230),
    ];
    for descriptor in descriptors {
        let conversion = descriptor.dat_to_yaml(&mapping, &zones).expect("convertible");
        let back = DatDescriptor::from_path(&conversion.yaml_path, &zones);
        assert_eq!(back, Some(descriptor));
    }
    assert_eq!(
        DatDescriptor::Dialog(231).yaml_to_dat(&mapping, &zones).unwrap_err(),
        ConversionError::NoZoneName
    );
    assert_eq!(
        ConversionError::NoZoneName.message(),
        "No zone name found for zone ID."
    );
    assert_eq!(
        DatDescriptor::Dialog2(230).dat_to_yaml(&mapping, &zones).unwrap_err(),
        ConversionError::NoZoneDat
    );
    let conversion = DatDescriptor::Dialog(230).dat_to_yaml(&mapping, &zones).unwrap();
    assert_eq!(conversion.yaml_path, "dialog/southern_san_doria.yml");
}

#[test]
fn package_files_parse_back_to_their_dat_paths() {
    for path in [dat_path(1, 0, 11), dat_path(0, 12, 345), dat_path(9, 255, 65535), dat_path(255, 1, 0)] {
        let logical = path.logical_path();
        for package in ["R000101", "0001", "R000100"] {
            let physical = format!("{}/{}", package, logical);
            assert_eq!(xi_tinkerer::dat_path::parse_dat_path(&physical), Some(path));
        }
    }
}

#[test]
fn every_candidate_is_reported_once() {
    let mappings = vec![
        mapping(1, 0, 11, &[20]),
        mapping(1, 0, 23, &[22]),
        mapping(1, 0, 35, &[23]),
        mapping(1, 0, 0, &[30]),
    ];
    let candidates = vec![
        candidate("R000100", 1, 0, 11, "R000100/ROM/0/11.DAT"),
        candidate("R000101", 1, 0, 11, "R000101/ROM/0/11.DAT"),
        candidate("0001", 1, 0, 11, "0001/ROM/0/11.DAT"),
        candidate("0001", 1, 0, 23, "0001/ROM/0/23.DAT"),
        candidate("R000100", 1, 0, 0, "R000100/ROM/0/0.DAT"),
        candidate("R000101", 0, 0, 0, "R000101/ROM0/0/0.DAT"),
        candidate("0001", 0, 0, 0, "0001/ROM0/0/0.DAT"),
        candidate("R000101", 1, 0, 0, "R000101/ROM/0/0.DAT"),
    ];
    let classification = classify_xbox_candidates(&mappings, &candidates);
    assert_eq!(
        classification.selected_dats.len()
            + classification.r000100_unmounted_dats.len()
            + classification.unreferenced_selected_dats.len()
            + classification.non_selected_mounted_shadow_dats.len(),
        candidates.len()
    );
    assert_eq!(
        classification.selected_dats.len() + classification.missing_mapped_paths.len(),
        mappings.len()
    );
}

#[test]
fn each_dat_has_one_yaml_file() {
    let mapping = DatIdMapping::get();
    let mut descriptors = vec![
        DatDescriptor::AbilityNames,
        DatDescriptor::DataMenu,
        DatDescriptor::QuestsMissionsKeyItems,
        DatDescriptor::KeyItems,
        DatDescriptor::Armor,
        DatDescriptor::Weapons,
        DatDescriptor::SystemMessages1,
        DatDescriptor::UnityDialogs,
    ];
    descriptors.push(DatDescriptor::Dialog2(50));
    for zone in [0u16, 230] {
        descriptors.push(DatDescriptor::ZoneData(zone));
        descriptors.push(DatDescriptor::EntityNames(zone));
        descriptors.push(DatDescriptor::Dialog(zone));
        descriptors.push(DatDescriptor::Events(zone));
    }
    let mut ids = Vec::new();
    for descriptor in &descriptors {
        ids.push(descriptor.dat(&mapping).expect("mapped").id);
    }
    let mut unique = ids.clone();
    unique.sort_unstable();
    unique.dedup();
    assert_eq!(unique.len(), ids.len());

    let dialog = DatDescriptor::Dialog(50).dat(&mapping).unwrap();
    let dialog2 = DatDescriptor::Dialog2(50).dat(&mapping).unwrap();
    assert_eq!(dialog.id, 6470);
    assert_eq!(dialog2.id, 57945);
    assert!(DatDescriptor::Dialog2(230).dat(&mapping).is_none());
}

#[test]
fn zone_text_keeps_every_zone_slot() {
    let mapping = DatIdMapping::get();
    let mut id_map: Vec<(u32, DatPath)> = (0u32..256)
        .map(|zone| (6420 + zone, dat_path(1, 200 + (zone / 128) as u16, (zone % 128) as u16)))
        .collect();
    let sources = zone_text_sources(&mapping, &id_map).unwrap();
    assert_eq!(sources.len(), 256);
    assert_eq!(sources[0].zone_id, 0);
    assert_eq!(sources[0].dat_id, 6420);
    assert_eq!(sources[255].dat_id, 6675);
    assert_eq!(sources[130].dat_path, dat_path(1, 201, 2));

    id_map.retain(|(id, _)| *id != 6425);
    let error = zone_text_sources(&mapping, &id_map).unwrap_err();
    assert_eq!(error, ZoneTextError::MissingDialogId { dat_id: 6425, zone_id: 5 });
    assert_eq!(
        error.message(),
        "Client mapping does not contain dialog DAT ID 6425 for zone 5"
    );
}

#[test]
fn client_globals_come_from_their_table_ids_in_catalogue_order() {
    let mapping = DatIdMapping::get();
    let mut id_map: Vec<(u32, DatPath)> = vec![
        (55725, dat_path(1, 0, 1)),
        (55465, dat_path(1, 0, 11)),
        (55704, dat_path(1, 0, 0)),
    ];
    let sources = client_global_sources(&mapping, &id_map).unwrap();
    assert_eq!(sources.len(), 3);
    assert_eq!(sources[0].resource, ClientGlobal::AreaNames);
    assert_eq!(sources[0].dat_id, 55465);
    assert_eq!(sources[0].dat_path, dat_path(1, 0, 11));
    assert_eq!(sources[1].resource.name(), "titles");
    assert_eq!(sources[1].dat_id, 55704);
    assert_eq!(sources[2].resource.name(), "status_names");
    assert_eq!(sources[2].dat_path, dat_path(1, 0, 1));

    id_map.retain(|(id, _)| *id != 55704);
    let error = client_global_sources(&mapping, &id_map).unwrap_err();
    assert_eq!(error, ClientGlobalsError::MissingDatId { resource: ClientGlobal::Titles, dat_id: 55704 });
    assert_eq!(error.message(), "Client mapping does not contain titles DAT ID 55704");
}

#[test]
fn an_empty_zone_name_leads_back_to_its_zone() {
    let mapping = DatIdMapping::get();
    let zones = ZoneNames {
        entries: vec![(230, String::new())],
    };
    let conversion = DatDescriptor::Dialog(230).dat_to_yaml(&mapping, &zones).expect("convertible");
    assert!(conversion.yaml_path.ends_with("/.yml"));
    assert_eq!(
        DatDescriptor::from_path(&conversion.yaml_path, &zones),
        Some(DatDescriptor::Dialog(230))
    );
}
