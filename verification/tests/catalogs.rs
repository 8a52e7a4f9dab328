//! Catalogs of live files, and browsing by NTFS metadata.

use files_recovery::catalog::{
    catalog_identity, catalog_matches, catalog_schema_version, collect_pending_ntfs_entry,
    ensure_catalog_supported, has_dollar_component, kept_entries, plan_load,
    resolve_ntfs_catalog_rows, CatalogCacheState, CatalogLoad, CatalogPage, CatalogStore,
    FilesystemWalk, NtfsFileFacts, NtfsNameFacts, PendingNtfsEntry,
};
use files_recovery::catalog_rows::{
    access_state_from_name, access_state_name, catalog_entry_to_row, entry_class_from_name,
    entry_class_name, prefers_catalog_row, row_to_catalog_entry, system_time_to_iso,
};
use files_recovery::entries::{
    attribute_labels, build_source_entry, build_source_entry_from_path, classify_source_entry,
    join_display_path, normalize_compare_string, resolve_browse_path, sort_entries, FileMetadata,
    MetadataReply, PageRequest,
};
use files_recovery::model::{
    BrowseSourceRequest, FileSystemKind, RssError, ScanSource, SourceAccessState,
    SourceEntryClass, SourceKind,
};
use files_recovery::ntfs_browse::{ntfs_browse_entry, NtfsBrowseCache, NtfsBrowseIndex};

fn source() -> ScanSource {
    ScanSource {
        id: "vol-c".to_string(),
        kind: SourceKind::LogicalVolume,
        device_path: "\\\\.\\C:".to_string(),
        mount_point: Some("C:\\".to_string()),
        display_name: "C:".to_string(),
        volume_label: Some("System".to_string()),
        filesystem: FileSystemKind::Ntfs,
        volume_serial: Some(0x1234),
        total_bytes: 1,
        free_bytes: 1,
        cluster_size: Some(4096),
        is_system: true,
        requires_elevation: false,
    }
}

fn facts(record: u64, parent: u64, name: &str, is_directory: bool) -> NtfsFileFacts {
    NtfsFileFacts {
        record,
        used: true,
        is_directory,
        best_name: Some(NtfsNameFacts {
            name: name.to_string(),
            parent_record: parent,
            attributes: 0,
        }),
        info_name: String::new(),
        info_path: name.to_string(),
        info_size: 3,
        data: Vec::new(),
        created: None,
        modified: None,
        accessed: None,
    }
}

fn pending(record: u64, parent: u64, name: &str, is_directory: bool) -> PendingNtfsEntry {
    collect_pending_ntfs_entry(&facts(record, parent, name, is_directory), true)
        .expect("the record is in use and has a name")
}

fn metadata(is_directory: bool) -> MetadataReply {
    MetadataReply::Found(FileMetadata {
        attributes: if is_directory { 0x10 } else { 0x20 },
        is_directory,
        readonly: false,
        length: 7,
        created: Some(1_500_000_000),
        modified: None,
        accessed: None,
    })
}

fn request(path: Option<&str>) -> BrowseSourceRequest {
    BrowseSourceRequest {
        source_id: "vol-c".to_string(),
        path: path.map(str::to_string),
        cursor: None,
        deleted_cursor: None,
        limit: None,
        directories_only: None,
        filter: None,
        sort_key: None,
        sort_direction: None,
    }
}

fn message(error: RssError) -> String {
    let RssError::Message(text) = error;
    text
}

#[test]
fn catalogs_are_named_by_what_they_are_of() {
    let identity = catalog_identity(&source());
    assert_eq!(identity.fingerprint, "vol-c|\\\\.\\C:|C:\\|Ntfs|4660|1|4096");
    assert_eq!(
        identity.signature,
        "vol-c|\\\\.\\C:|C:\\|Ntfs|4660|1|4096|System|true|false|5"
    );
    assert_eq!(
        identity.db_name,
        "ac234b5e871bdeff8aa34277757ab15dc8dcf56cda7a1d3a9e2dbabefc90344a.sqlite3"
    );
    assert!(identity.temp_name.ends_with(".tmp.sqlite3"));
    let ready = Some("1".to_string());
    let schema = Some(catalog_schema_version().to_string());
    let signature = Some(identity.signature.clone());
    assert!(catalog_matches(&identity, &ready, &schema, &signature));
    assert!(!catalog_matches(&identity, &None, &schema, &signature));
    assert!(!catalog_matches(&identity, &ready, &schema, &Some("other".to_string())));
}

#[test]
fn only_mounted_volumes_have_catalogs() {
    assert!(ensure_catalog_supported(&source()).is_ok());
    let mut disk = source();
    disk.kind = SourceKind::PhysicalDisk;
    assert!(message(ensure_catalog_supported(&disk).expect_err("a disk"))
        .contains("mounted logical volumes"));
}

#[test]
fn fitting_catalogs_are_kept() {
    assert!(matches!(plan_load(false, true, true), CatalogLoad::Keep));
    assert!(matches!(
        plan_load(true, true, true),
        CatalogLoad::Build(CatalogCacheState::Rebuild)
    ));
    assert!(matches!(plan_load(false, false, false), CatalogLoad::Build(CatalogCacheState::Cold)));
    assert_eq!(kept_entries(&Some("12".to_string()), Some(3)), 12);
    assert_eq!(kept_entries(&Some("many".to_string()), Some(3)), 3);
    assert_eq!(kept_entries(&None, None), 0);
}

#[test]
fn files_are_placed_below_their_folders() {
    let entries = vec![
        pending(41, 40, "a.txt", false),
        pending(40, 5, "docs", true),
        pending(50, 99, "lost.bin", false),
    ];
    let rows = resolve_ntfs_catalog_rows("C:\\", &entries);
    let file = rows.get("c:\\docs\\a.txt").expect("the file has a row");
    assert_eq!(file.path, "C:\\docs\\a.txt");
    assert_eq!(file.parent_path_key, "c:\\docs");
    assert_eq!((file.record, file.size), (Some(41), 3));
    assert!(rows.entries.iter().any(|(_, row)| row.name == "lost.bin"));
}

#[test]
fn every_path_has_one_row() {
    let apart = vec![
        pending(40, 5, "docs", true),
        pending(41, 40, "a.txt", false),
        pending(42, 5, "a.txt", false),
    ];
    assert_eq!(resolve_ntfs_catalog_rows("C:\\", &apart).len(), 4);
    let alike = vec![
        pending(40, 5, "docs", true),
        pending(41, 40, "a.txt", false),
        pending(42, 40, "A.TXT", false),
    ];
    assert_eq!(resolve_ntfs_catalog_rows("C:\\", &alike).len(), 3);
}

#[test]
fn files_without_a_parent_stand_in_the_root() {
    let entries = vec![pending(50, 99, "lost.bin", false), pending(51, 50, "below", false)];
    let rows = resolve_ntfs_catalog_rows("C:\\", &entries);
    let lost = rows.get("c:\\lost.bin").expect("it was placed");
    assert_eq!((lost.path.as_str(), lost.parent_record), ("C:\\lost.bin", Some(99)));
    assert_eq!(rows.get("c:\\lost.bin\\below").expect("it was placed").record, Some(51));
}

#[test]
fn unused_records_are_left_out() {
    let mut unused = facts(40, 5, "a.txt", false);
    unused.used = false;
    assert!(collect_pending_ntfs_entry(&unused, true).is_none());
    assert!(collect_pending_ntfs_entry(&facts(5, 5, ".", true), true).is_none());
    let meta = pending(41, 5, "$Secret", false);
    assert!(meta.is_metafile);
    assert!(has_dollar_component("C:\\$Extend\\a") && !has_dollar_component("C:\\a$"));
}

#[test]
fn folders_are_walked_in_turn() {
    let mut walk = FilesystemWalk::new(None, "C:\\", &metadata(true));
    assert_eq!(walk.next_directory().as_deref(), Some("C:\\"));
    walk.entry(Some("docs"), "C:\\docs", "C:\\", &metadata(true));
    walk.entry(Some("a.txt"), "C:\\a.txt", "C:\\", &metadata(false));
    assert_eq!(walk.next_directory().as_deref(), Some("C:\\docs"));
    walk.directory_failed("C:\\docs", true);
    assert_eq!(walk.next_directory(), None);
    assert_eq!(walk.indexed_entries(), 3);
    let rows = walk.finish();
    assert_eq!(rows.get("c:\\docs").expect("it was met").access_state, SourceAccessState::Denied);
    let file = rows.get("c:\\a.txt").expect("it was met");
    assert_eq!(file.created_at.as_deref(), Some("1970-01-01T00:00:01Z"));
    assert_eq!(file.extension.as_deref(), Some("txt"));
}

#[test]
fn rows_come_back_as_they_were_stored() {
    let rows = resolve_ntfs_catalog_rows("C:\\", &vec![pending(40, 5, "Docs", true)]);
    let (_, row) = rows.entries.into_iter().find(|(k, _)| k == "c:\\docs").expect("it was placed");
    let (name, size, class) = (row.name.clone(), row.size, row.entry_class);
    let stored = catalog_entry_to_row(row);
    assert_eq!(stored.lower_name, "docs");
    let back = row_to_catalog_entry(stored);
    assert_eq!((back.name, back.size, back.entry_class), (name, size, class));
    for class in [
        SourceEntryClass::File,
        SourceEntryClass::Directory,
        SourceEntryClass::MetadataFile,
        SourceEntryClass::MetadataDirectory,
    ] {
        assert_eq!(entry_class_from_name(entry_class_name(class)), class);
    }
    for state in
        [SourceAccessState::Readable, SourceAccessState::Denied, SourceAccessState::Unknown]
    {
        assert_eq!(access_state_from_name(access_state_name(state)), state);
    }
    assert_eq!(system_time_to_iso(Some(-1)), None);
}

#[test]
fn the_better_of_two_rows_stays() {
    let rows = resolve_ntfs_catalog_rows(
        "C:\\",
        &vec![pending(40, 5, "a", false), pending(41, 5, "b", false)],
    );
    let denied = {
        let mut row = row_to_catalog_entry(catalog_entry_to_row(take(&rows, "c:\\a")));
        row.access_state = SourceAccessState::Denied;
        row
    };
    let readable = take(&rows, "c:\\b");
    assert!(prefers_catalog_row(&readable, &denied) != prefers_catalog_row(&denied, &readable));
}

fn take(
    rows: &files_recovery::table::Table<files_recovery::catalog_rows::CatalogEntryRow>,
    key: &str,
) -> files_recovery::catalog_rows::CatalogEntryRow {
    let row = rows.get(key).expect("it was placed");
    files_recovery::catalog_rows::CatalogEntryRow {
        object_key: row.object_key.clone(),
        record: row.record,
        parent_record: row.parent_record,
        parent_path_key: row.parent_path_key.clone(),
        path: row.path.clone(),
        path_key: row.path_key.clone(),
        name: row.name.clone(),
        extension: row.extension.clone(),
        is_directory: row.is_directory,
        is_metafile: row.is_metafile,
        entry_class: row.entry_class,
        size: row.size,
        created_at: row.created_at.clone(),
        modified_at: row.modified_at.clone(),
        accessed_at: row.accessed_at.clone(),
        hidden: row.hidden,
        system: row.system,
        read_only: row.read_only,
        attr_bits: row.attr_bits,
        access_state: row.access_state,
    }
}

#[test]
fn catalogs_answer_only_when_ready() {
    let store = CatalogStore::new("D:\\catalogs".to_string());
    assert_eq!(
        message(store.browse_query(&source(), &request(None), false).err().expect("not ready")),
        "catalog_not_ready"
    );
    let query = store.browse_query(&source(), &request(Some("C:/docs")), true).expect("it is");
    assert_eq!(query.path_key, "c:\\docs");
    assert_eq!(
        message(store.browse_source(&source(), &query, None, None).err().expect("no such path")),
        "Requested path was not found"
    );
    let rows = resolve_ntfs_catalog_rows("C:\\", &vec![pending(40, 5, "a.txt", false)]);
    let page = CatalogPage { total: 1, rows: vec![take(&rows, "c:\\a.txt")] };
    let listing = store
        .browse_source(&source(), &query, Some(page), Some("C:\\"))
        .expect("the path is known");
    assert_eq!(listing.entries.len(), 1);
    assert_eq!(listing.total_entry_count, 1);
    assert_eq!(
        message(store.entry_details(&source(), true, None, None).err().expect("no such row")),
        "Source entry was not found"
    );
}

#[test]
fn metadata_paths_lead_back_to_their_records() {
    let mut index = NtfsBrowseIndex::new("vol-c", Some("C:\\")).expect("the volume is mounted");
    index.expect_entries(3);
    let batch = vec![
        ntfs_browse_entry(&facts(40, 5, "docs", true)).expect("it is in use"),
        ntfs_browse_entry(&facts(41, 40, "a.txt", false)).expect("it is in use"),
    ];
    index.flush_ntfs_browse_batch(batch);
    index.finish();
    let path = index.resolve_ntfs_path(41).expect("its folders are known");
    assert_eq!(path, "C:\\docs\\a.txt");
    assert_eq!(index.resolve_ntfs_record(&path).expect("it was found"), 41);
    assert_eq!(index.resolve_ntfs_record("C:\\").expect("the root is known"), 5);
    assert_eq!(
        message(index.resolve_ntfs_record("D:\\x").expect_err("another volume")),
        "Requested path is outside the selected source"
    );
    assert_eq!(
        message(index.resolve_ntfs_record("C:\\nothing").expect_err("no such file")),
        "Requested path was not found in NTFS metadata"
    );
    let page = PageRequest { cursor: None, limit: None, directories_only: false };
    let listing =
        index.browse_ntfs_directory("C:\\docs", Some("C:\\"), &page).expect("the folder is known");
    assert_eq!(listing.entries.len(), 1);
    assert_eq!(listing.entries[0].name, "a.txt");
    assert!(listing.indexing_complete);
    assert_eq!(
        index.inspect_source_entry("C:\\docs\\a.txt", Some("C:\\docs")).expect("it is known").size,
        3
    );
}

#[test]
fn loops_in_metadata_are_told() {
    let mut index = NtfsBrowseIndex::new("vol-c", Some("C:\\")).expect("the volume is mounted");
    index.flush_ntfs_browse_batch(vec![
        pending(40, 41, "a", true),
        pending(41, 40, "b", true),
        pending(42, 77, "c", true),
    ]);
    assert_eq!(
        message(index.resolve_ntfs_path(40).expect_err("it goes round")),
        "Detected a loop while resolving NTFS path"
    );
    assert_eq!(
        message(index.resolve_ntfs_path(42).expect_err("a folder is missing")),
        "Failed to resolve NTFS path for record 42"
    );
    assert_eq!(
        message(NtfsBrowseIndex::new("vol-c", None).err().expect("it is not mounted")),
        "NTFS directory browsing requires a mounted volume"
    );
}

#[test]
fn indexes_are_made_once_for_a_source() {
    let mut cache = NtfsBrowseCache::new();
    assert!(cache.ntfs_browse_index(&source()).expect("it is mounted"));
    assert!(!cache.ntfs_browse_index(&source()).expect("it is mounted"));
    let index = cache.take("vol-c").expect("it was made");
    cache.put("vol-c", index);
    assert!(cache.take("vol-c").is_some());
    cache.clear_browse_cache();
    assert!(cache.take("vol-c").is_none());
}

#[test]
fn display_paths_have_one_form() {
    assert_eq!(normalize_compare_string("C:/Docs/"), normalize_compare_string("c:\\docs"));
    assert_eq!(join_display_path("C:\\", "a"), "C:\\a");
    assert_eq!(join_display_path("C:\\docs", "a"), "C:\\docs\\a");
    assert!(resolve_browse_path("C:\\", "C:\\docs").is_ok());
    assert!(resolve_browse_path("C:\\", "D:\\docs").is_err());
    assert_eq!(classify_source_entry(true, true), SourceEntryClass::MetadataDirectory);
    assert!(attribute_labels(0x2, true).len() >= 2);
    assert!(sort_entries(Vec::new()).is_empty());
}

#[test]
fn paths_are_shown_with_backslashes() {
    let entry = build_source_entry("a.txt", "C:/docs/a.txt", "C:\\docs", &metadata(false))
        .expect("the name is not blank");
    assert_eq!(entry.path, "C:\\docs\\a.txt");
    assert!(build_source_entry("  ", "C:/docs/  ", "C:\\docs", &metadata(false)).is_none());
    let root = build_source_entry_from_path(None, "E:", "E:\\", &metadata(true));
    assert_eq!((root.name.as_str(), root.path.as_str()), ("E:\\", "E:\\"));
    let mut walk = FilesystemWalk::new(None, "E:", &metadata(true));
    walk.entry(Some("docs"), "E:/docs", "E:", &metadata(true));
    let rows = walk.finish();
    assert_eq!(rows.get("e:\\").expect("the root has a row").path, "E:\\");
    let docs = rows.get("e:\\docs").expect("it was met");
    assert_eq!((docs.path.as_str(), docs.parent_path_key.as_str()), ("E:\\docs", "e:\\"));
}
