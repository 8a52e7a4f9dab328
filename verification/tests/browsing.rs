//! Deleted files in the folder tree.

use files_recovery::bridge_browse::is_path_not_found_error;
use files_recovery::browse_cache::{build_deleted_browse_cache, collect_deleted_artifact_locators};
use files_recovery::browse_listing::{
    apply_deleted_hits_to_entry, create_deleted_folder_entry, deleted_hits_for_entry,
    deleted_indices_for_request, entry_represents_deleted_folder_route, filtered_deleted_indices,
};
use files_recovery::browse_paths::is_unknown_deleted_path;
use files_recovery::model::{
    ArtifactClass, ArtifactRecord, BrowseSourceRequest, ContentSourceKind, FileSystemKind,
    OriginType, PathConfidence, PlacementKind, Recoverability, ScanSource, SourceAccessState,
    SourceEntry, SourceEntryClass, SourceKind,
};
use files_recovery::table::Table;

fn test_source() -> ScanSource {
    ScanSource {
        id: "vol-c".to_string(),
        kind: SourceKind::LogicalVolume,
        device_path: "\\\\.\\C:".to_string(),
        mount_point: Some("C:\\".to_string()),
        display_name: "C:".to_string(),
        volume_label: Some("System".to_string()),
        filesystem: FileSystemKind::Ntfs,
        volume_serial: Some(0x1234),
        total_bytes: 1,
        free_bytes: 1,
        cluster_size: Some(4096),
        is_system: true,
        requires_elevation: true,
    }
}

fn deleted_record(name: &str, path: Option<&str>) -> ArtifactRecord {
    let mut record = ArtifactRecord::new("scan-1", "vol-c", name);
    record.original_path = path.map(str::to_string);
    record.deleted_entry = true;
    record.origin_type = OriginType::FilesystemDeletedEntry;
    record.placement_kind = if path.is_some() {
        PlacementKind::OriginalPath
    } else {
        PlacementKind::UnknownParent
    };
    record.path_confidence = if path.is_some() {
        PathConfidence::Exact
    } else {
        PathConfidence::Unknown
    };
    record.content_source = ContentSourceKind::ResidentData;
    record.artifact_class = ArtifactClass::NamedMetadataCandidate;
    record.recoverability = Recoverability::Good;
    record
}

fn source_entry(path: &str, attributes: Vec<&str>) -> SourceEntry {
    SourceEntry {
        name: path.rsplit('\\').next().unwrap_or(path).to_string(),
        path: path.to_string(),
        parent_path: "C:\\".to_string(),
        mft_reference: None,
        parent_reference: None,
        extension: None,
        is_directory: true,
        has_children: Some(true),
        is_metafile: false,
        entry_class: SourceEntryClass::Directory,
        size: 0,
        created_at: None,
        modified_at: None,
        accessed_at: None,
        hidden: false,
        system: false,
        read_only: false,
        attr_bits: None,
        attributes: attributes.into_iter().map(str::to_string).collect(),
        deleted_hits: 0,
        access_state: SourceAccessState::Readable,
    }
}

#[test]
fn deleted_browse_cache_ignores_non_deleted_records() {
    let mut live_record = ArtifactRecord::new("scan-1", "vol-c", "users");
    live_record.original_path = Some("C:\\Users".to_string());
    live_record.deleted_entry = false;
    live_record.origin_type = OriginType::FilesystemDeletedEntry;
    let deleted_record = deleted_record("vec.dll", Some("C:\\Users\\jumarf\\vec.dll"));

    let locators = collect_deleted_artifact_locators(&[live_record, deleted_record]);
    assert_eq!(locators.len(), 1);

    let cache = build_deleted_browse_cache(&test_source(), &locators).expect("cache");
    assert!(cache.synthetic_folders.contains_key("c:\\users"));
    assert_eq!(
        cache
            .direct_artifact_indices_by_folder
            .get("c:\\users\\jumarf")
            .map(Vec::as_slice),
        Some([1].as_slice())
    );
}

#[test]
fn deleted_browse_cache_marks_missing_paths_unknown() {
    let orphan = deleted_record("orphan.bin", None);
    let cache = build_deleted_browse_cache(
        &test_source(),
        &collect_deleted_artifact_locators(&[orphan]),
    )
    .expect("cache");
    assert_eq!(cache.unknown_artifact_indices, vec![0]);
}

#[test]
fn probable_paths_inside_root_are_placed_in_deleted_tree() {
    let mut probable = deleted_record("probable.jar", None);
    probable.probable_path = Some("C:\\Users\\Old\\probable.jar".to_string());
    probable.placement_kind = PlacementKind::BrokenParentChain;
    probable.path_confidence = PathConfidence::Partial;
    let exact = deleted_record("exact.jar", Some("C:\\Users\\New\\exact.jar"));
    let records = [probable, exact];
    let cache = build_deleted_browse_cache(
        &test_source(),
        &collect_deleted_artifact_locators(&records),
    )
    .expect("cache");

    assert_eq!(cache.probable_artifact_indices, Vec::<usize>::new());
    assert_eq!(cache.unknown_artifact_indices, Vec::<usize>::new());
    assert_eq!(
        cache.subtree_deleted_counts.get("c:\\users").copied(),
        Some(2)
    );
    assert_eq!(
        cache
            .direct_artifact_indices_by_folder
            .get("c:\\users\\old")
            .map(Vec::as_slice),
        Some([0].as_slice())
    );
}

#[test]
fn extension_filter_uses_unknown_index_for_large_buckets() {
    let records = [
        deleted_record("library.jar", None),
        deleted_record("payload.exe", None),
        deleted_record("notes.txt", None),
    ];
    let cache = build_deleted_browse_cache(
        &test_source(),
        &collect_deleted_artifact_locators(&records),
    )
    .expect("cache");

    let filtered = filtered_deleted_indices(
        &records,
        &cache.unknown_artifact_indices,
        &cache.unknown_artifact_indices_by_extension,
        Some(".jar"),
    );

    assert_eq!(filtered, vec![0]);
}

#[test]
fn deleted_indices_sort_by_modified_before_paging() {
    let mut older = deleted_record("older.jar", Some("C:\\Users\\Old\\older.jar"));
    older.modified_at = Some("2026-01-01T00:00:00Z".to_string());
    let mut newer = deleted_record("newer.jar", Some("C:\\Users\\Old\\newer.jar"));
    newer.modified_at = Some("2026-05-01T00:00:00Z".to_string());
    let mut middle = deleted_record("middle.jar", Some("C:\\Users\\Old\\middle.jar"));
    middle.modified_at = Some("2026-03-01T00:00:00Z".to_string());
    let records = [older, newer, middle];
    let request = BrowseSourceRequest {
        source_id: "vol-c".to_string(),
        path: Some("C:\\Users\\Old".to_string()),
        cursor: None,
        deleted_cursor: None,
        limit: Some(2),
        directories_only: Some(false),
        filter: None,
        sort_key: Some("modified_at".to_string()),
        sort_direction: Some("desc".to_string()),
    };

    let extension_index = Table::new();
    let sorted = deleted_indices_for_request(&records, &[0, 1, 2], &extension_index, &request);

    assert_eq!(sorted, vec![1, 2, 0]);
}

#[test]
fn deleted_hits_for_live_folders_use_subtree_hits() {
    let deleted_records = [
        deleted_record("one.bin", Some("C:\\Users\\jumarf\\one.bin")),
        deleted_record("two.bin", Some("C:\\Users\\jumarf\\nested\\two.bin")),
        deleted_record("three.bin", Some("C:\\ProgramData\\App\\Cache\\three.bin")),
    ];
    let cache = build_deleted_browse_cache(
        &test_source(),
        &collect_deleted_artifact_locators(&deleted_records),
    )
    .expect("cache");

    let live_folder = source_entry("C:\\Users\\jumarf", Vec::new());
    let synthetic_folder = source_entry("C:\\Users\\jumarf\\nested", vec!["Deleted folder"]);
    let program_data = source_entry("C:\\ProgramData", Vec::new());

    assert_eq!(
        deleted_hits_for_entry(&live_folder, &cache, &test_source()),
        2
    );
    assert_eq!(
        deleted_hits_for_entry(&synthetic_folder, &cache, &test_source()),
        1
    );
    assert_eq!(
        deleted_hits_for_entry(&program_data, &cache, &test_source()),
        1
    );
    assert_eq!(
        cache
            .direct_artifact_indices_by_folder
            .get("c:\\users\\jumarf")
            .map(Vec::len),
        Some(1)
    );
}

#[test]
fn listing_folder_indices_stay_direct_to_keep_deleted_files_at_their_path() {
    let deleted_records = [
        deleted_record(
            "nested.bin",
            Some("C:\\ProgramData\\App\\Cache\\nested.bin"),
        ),
        deleted_record("direct.bin", Some("C:\\ProgramData\\direct.bin")),
    ];
    let cache = build_deleted_browse_cache(
        &test_source(),
        &collect_deleted_artifact_locators(&deleted_records),
    )
    .expect("cache");

    assert_eq!(
        cache.direct_artifact_indices_for_folder("c:\\programdata"),
        &[1]
    );
    assert_eq!(
        cache.direct_artifact_indices_for_folder("c:\\programdata\\app"),
        &[] as &[usize]
    );
    assert_eq!(
        cache.direct_artifact_indices_for_folder("c:\\programdata\\app\\cache"),
        &[0]
    );
    assert_eq!(
        cache.direct_artifact_indices_for_folder("c:\\"),
        &[] as &[usize]
    );
}

#[test]
fn probable_path_inside_root_is_listed_only_at_probable_parent() {
    let mut probable = deleted_record(".git", None);
    probable.probable_path =
        Some("C:\\Users\\jumarf\\AppData\\Local\\Temp\\_MEI96042\\rules\\.git".to_string());
    probable.placement_kind = PlacementKind::BrokenParentChain;
    probable.path_confidence = PathConfidence::Partial;

    let cache = build_deleted_browse_cache(
        &test_source(),
        &collect_deleted_artifact_locators(&[probable]),
    )
    .expect("cache");

    assert_eq!(cache.probable_artifact_indices, Vec::<usize>::new());
    assert_eq!(
        cache.subtree_deleted_counts.get("c:\\users").copied(),
        Some(1)
    );
    assert_eq!(
        cache.direct_artifact_indices_for_folder("c:\\users"),
        &[] as &[usize]
    );
    assert_eq!(
        cache.direct_artifact_indices_for_folder(
            "c:\\users\\jumarf\\appdata\\local\\temp\\_mei96042\\rules"
        ),
        &[0]
    );
    assert!(
        cache
            .synthetic_folders_by_parent
            .get("c:\\users")
            .is_some_and(|folders| folders.iter().any(|folder| folder.name == "jumarf"))
    );
}

#[test]
fn nested_probable_deleted_folder_always_has_visible_child_route() {
    let mut probable = deleted_record("rule.yar", None);
    probable.probable_path = Some(
        "C:\\Users\\jumarf\\Downloads\\yara_fp_strict_rules\\private\\rule.yar".to_string(),
    );
    probable.placement_kind = PlacementKind::BrokenParentChain;
    probable.path_confidence = PathConfidence::Partial;

    let cache = build_deleted_browse_cache(
        &test_source(),
        &collect_deleted_artifact_locators(&[probable]),
    )
    .expect("cache");

    let folder_key = "c:\\users\\jumarf\\downloads\\yara_fp_strict_rules";
    assert_eq!(
        cache.subtree_deleted_counts.get(folder_key).copied(),
        Some(1)
    );
    assert_eq!(
        cache.direct_artifact_indices_for_folder(folder_key),
        &[] as &[usize]
    );
    assert!(
        cache
            .route_folders_by_parent
            .get(folder_key)
            .is_some_and(|folders| folders.iter().any(|folder| folder.name == "private"))
    );
}

#[test]
fn live_file_name_collision_does_not_hide_deleted_folder_route() {
    let live_file = SourceEntry {
        is_directory: false,
        entry_class: SourceEntryClass::File,
        has_children: Some(false),
        ..source_entry("C:\\Users\\jumarf\\Downloads\\rules", Vec::new())
    };
    let live_folder = source_entry("C:\\Users\\jumarf\\Downloads\\rules", Vec::new());

    assert!(!entry_represents_deleted_folder_route(&live_file));
    assert!(entry_represents_deleted_folder_route(&live_folder));
}

#[test]
fn live_folder_with_deleted_descendants_becomes_expandable() {
    let deleted_record =
        deleted_record("two.bin", Some("C:\\ProgramData\\App\\Cache\\two.bin"));
    let cache = build_deleted_browse_cache(
        &test_source(),
        &collect_deleted_artifact_locators(&[deleted_record]),
    )
    .expect("cache");
    let mut entry = SourceEntry {
        has_children: Some(false),
        ..source_entry("C:\\ProgramData", Vec::new())
    };

    apply_deleted_hits_to_entry(&mut entry, &cache, &test_source());

    assert_eq!(entry.deleted_hits, 1);
    assert_eq!(entry.has_children, Some(true));
}

#[test]
fn direct_deleted_files_do_not_create_empty_tree_expanders() {
    let deleted_record = deleted_record("two.bin", Some("C:\\ProgramData\\two.bin"));
    let cache = build_deleted_browse_cache(
        &test_source(),
        &collect_deleted_artifact_locators(&[deleted_record]),
    )
    .expect("cache");
    let mut live_entry = SourceEntry {
        has_children: Some(false),
        ..source_entry("C:\\ProgramData", Vec::new())
    };

    apply_deleted_hits_to_entry(&mut live_entry, &cache, &test_source());

    assert_eq!(live_entry.deleted_hits, 1);
    assert_eq!(live_entry.has_children, Some(false));
    let synthetic_folder = cache
        .synthetic_folders
        .get("c:\\programdata")
        .expect("synthetic folder");
    let synthetic_entry = create_deleted_folder_entry(&cache, synthetic_folder, 1);
    assert_eq!(synthetic_entry.deleted_hits, 1);
    assert_eq!(synthetic_entry.has_children, Some(false));
}

#[test]
fn deleted_path_root_check_respects_directory_boundaries() {
    assert!(!is_unknown_deleted_path(
        Some("C:\\ProgramData\\file.bin"),
        "C:\\"
    ));
    assert!(is_unknown_deleted_path(
        Some("C:\\Mountains\\file.bin"),
        "C:\\Mount"
    ));
    assert!(!is_unknown_deleted_path(
        Some("C:\\Mount\\child\\file.bin"),
        "C:\\Mount"
    ));
}

#[test]
fn path_not_found_error_recognizes_common_windows_forms() {
    assert!(is_path_not_found_error("path_not_found"));
    assert!(is_path_not_found_error("The system cannot find the path specified. (os error 3)"));
    assert!(!is_path_not_found_error("access denied"));
}
