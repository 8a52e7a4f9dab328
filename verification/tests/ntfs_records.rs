//! Deleted records of the master file table.

use files_recovery::model::{
    ArtifactFamily, ArtifactKind, ArtifactRecord, ByteRun, Confidence, NameSourceKind, OriginType,
    PathConfidence, PlacementKind, Recoverability, ScanMode,
};
use files_recovery::ntfs_names::{
    file_name_from_path, select_best_name_candidate, FileNameCandidate, NAMESPACE_POSIX,
    NAMESPACE_WIN32, NAMESPACE_WIN32_AND_DOS,
};
use files_recovery::ntfs_records::{
    apply_generated_name_confidence, assess_recoverability, default_extension_for_kind,
    keep_fast_record, should_capture_preview,
};
use files_recovery::recycle_bin::parse_recycle_bin_info;
use files_recovery::volume::{DataRun, NtfsDataStream, VolumeBitmap};


fn test_record(name: &str) -> ArtifactRecord {
    let mut record = ArtifactRecord::new("scan-1", "source-1", name);
    record.origin_type = OriginType::FilesystemDeletedEntry;
    record
}

fn candidate(name: &str, namespace: u8) -> FileNameCandidate {
    FileNameCandidate {
        name: name.to_string(),
        original_path: Some(format!("C:\\Audit\\{name}")),
        probable_path: None,
        parent_reference: 42,
        namespace,
        placement_kind: PlacementKind::OriginalPath,
        path_confidence: PathConfidence::Exact,
        path_evidence: Vec::new(),
        created_at: None,
        modified_at: None,
        last_metadata_change_at: None,
    }
}

#[test]
fn fast_mode_keeps_low_confidence_mft_records_for_recall() {
    let mut record = test_record("deleted_record_42");
    record.kind = ArtifactKind::Unknown;
    record.family = ArtifactFamily::Unknown;
    record.recoverability = Recoverability::Poor;
    record.confidence = Confidence::Low;
    record.size = 0;
    record.filesystem_record = Some(42);

    assert!(keep_fast_record(&record));
}

#[test]
fn generated_pathless_records_stay_low_confidence() {
    let mut record = test_record("deleted_record_42");
    record.name_source = NameSourceKind::Generated;
    record.original_path = None;
    record.confidence = Confidence::Medium;

    apply_generated_name_confidence(&mut record);

    assert_eq!(record.confidence, Confidence::Low);
}

#[test]
fn fast_mode_keeps_recoverable_named_records() {
    let mut record = test_record("report.txt");
    record.extension = Some("txt".to_string());
    record.original_path = Some("C:\\Users\\Public\\report.txt".to_string());
    record.kind = ArtifactKind::Txt;
    record.family = ArtifactFamily::Text;
    record.recoverability = Recoverability::Good;
    record.confidence = Confidence::High;
    record.size = 512;

    assert!(keep_fast_record(&record));
}

#[test]
fn fast_mode_keeps_high_priority_pathless_records() {
    let mut record = test_record("deleted_record_77");
    record.kind = ArtifactKind::Zip;
    record.family = ArtifactFamily::Archive;
    record.recoverability = Recoverability::Partial;
    record.confidence = Confidence::Medium;
    record.size = 4096;

    assert!(keep_fast_record(&record));
}

#[test]
fn fast_mode_keeps_named_executable_candidates_even_with_weak_size() {
    let mut record = test_record("vec.dll");
    record.extension = Some("dll".to_string());
    record.kind = ArtifactKind::Dll;
    record.family = ArtifactFamily::Executable;
    record.confidence = Confidence::Low;
    record.recoverability = Recoverability::Unknown;
    record.size = 0;
    record.filesystem_record = Some(1_337);

    assert!(keep_fast_record(&record));
}

#[test]
fn prefers_name_candidate_that_matches_preview_kind() {
    let candidates = vec![
        candidate("metrics.interim", NAMESPACE_WIN32),
        candidate("launcher.exe", NAMESPACE_WIN32_AND_DOS),
    ];

    let selected = select_best_name_candidate(&candidates, ArtifactKind::Exe)
        .expect("candidate should be selected");

    assert_eq!(selected.name, "launcher.exe");
}

#[test]
fn falls_back_to_namespace_quality_when_preview_kind_is_unknown() {
    let candidates = vec![
        candidate("audit.txt", NAMESPACE_POSIX),
        candidate("audit-final.txt", NAMESPACE_WIN32_AND_DOS),
    ];

    let selected = select_best_name_candidate(&candidates, ArtifactKind::Unknown)
        .expect("candidate should be selected");

    assert_eq!(selected.name, "audit-final.txt");
}

#[test]
fn prefers_specific_extension_when_preview_kind_is_unknown() {
    let candidates = vec![
        candidate(".metadata-v2", NAMESPACE_WIN32_AND_DOS),
        candidate("installer.msi", NAMESPACE_WIN32),
    ];

    let selected = select_best_name_candidate(&candidates, ArtifactKind::Unknown)
        .expect("candidate should be selected");

    assert_eq!(selected.name, "installer.msi");
}

#[test]
fn prefers_candidate_with_original_path_when_quality_is_otherwise_close() {
    let candidates = vec![
        FileNameCandidate {
            name: "payload.bin".to_string(),
            original_path: None,
            probable_path: None,
            parent_reference: 42,
            namespace: NAMESPACE_WIN32_AND_DOS,
            placement_kind: PlacementKind::UnknownParent,
            path_confidence: PathConfidence::Unknown,
            path_evidence: Vec::new(),
            created_at: None,
            modified_at: None,
            last_metadata_change_at: None,
        },
        FileNameCandidate {
            name: "payload.bin".to_string(),
            original_path: Some("C:\\Recovered\\payload.bin".to_string()),
            probable_path: None,
            parent_reference: 42,
            namespace: NAMESPACE_WIN32,
            placement_kind: PlacementKind::OriginalPath,
            path_confidence: PathConfidence::Exact,
            path_evidence: Vec::new(),
            created_at: None,
            modified_at: None,
            last_metadata_change_at: None,
        },
    ];

    let selected = select_best_name_candidate(&candidates, ArtifactKind::Unknown)
        .expect("candidate should be selected");

    assert_eq!(
        selected.original_path.as_deref(),
        Some("C:\\Recovered\\payload.bin")
    );
}

#[test]
fn parses_recycle_bin_info_path_and_deleted_time() {
    let mut bytes = Vec::new();
    bytes.extend_from_slice(&2u64.to_le_bytes());
    bytes.extend_from_slice(&1234u64.to_le_bytes());
    bytes.extend_from_slice(&133_801_632_000_000_000u64.to_le_bytes());
    let path = "C:\\Users\\jumarf\\Downloads\\bundle.jar";
    let utf16 = path
        .encode_utf16()
        .chain(std::iter::once(0))
        .collect::<Vec<_>>();
    bytes.extend_from_slice(&(utf16.len() as u32).to_le_bytes());
    for unit in utf16 {
        bytes.extend_from_slice(&unit.to_le_bytes());
    }

    let parsed = parse_recycle_bin_info(&bytes).expect("recycle metadata");

    assert_eq!(parsed.original_path, path);
    assert!(parsed.deleted_at.is_some());
}

#[test]
fn fast_preview_keeps_named_resident_records_probeable() {
    let mut record = test_record("report.txt");
    record.extension = Some("txt".to_string());
    record.original_path = Some("C:\\Users\\Public\\report.txt".to_string());
    record.kind = ArtifactKind::Txt;
    record.family = ArtifactFamily::Text;
    record.size = 1024;

    assert!(should_capture_preview(
        ScanMode::Fast,
        &record,
        Some(&NtfsDataStream::Resident(vec![0u8; 32]))
    ));
}

#[test]
fn fast_preview_keeps_small_named_text_records_probeable() {
    let mut record = test_record("report.txt");
    record.extension = Some("txt".to_string());
    record.original_path = Some("C:\\Users\\Public\\report.txt".to_string());
    record.kind = ArtifactKind::Txt;
    record.family = ArtifactFamily::Text;
    record.size = 4096;

    assert!(should_capture_preview(
        ScanMode::Fast,
        &record,
        Some(&NtfsDataStream::NonResident {
            logical_size: 4096,
            runs: vec![DataRun::Sparse { length: 4096 }],
        })
    ));
}

#[test]
fn fast_preview_keeps_small_nonresident_archives_probeable() {
    let mut record = test_record("bundle.zip");
    record.extension = Some("zip".to_string());
    record.original_path = Some("C:\\Users\\Public\\bundle.zip".to_string());
    record.kind = ArtifactKind::Zip;
    record.family = ArtifactFamily::Archive;
    record.size = 64 * 1024;

    assert!(should_capture_preview(
        ScanMode::Fast,
        &record,
        Some(&NtfsDataStream::NonResident {
            logical_size: 64 * 1024,
            runs: vec![DataRun::Sparse { length: 64 * 1024 }],
        })
    ));
}

#[test]
fn fast_preview_keeps_pathless_autogenerated_records_probeable() {
    let mut record = test_record("deleted_record_91");
    record.kind = ArtifactKind::Unknown;
    record.family = ArtifactFamily::Unknown;
    record.size = 1024;

    assert!(should_capture_preview(
        ScanMode::Fast,
        &record,
        Some(&NtfsDataStream::Resident(vec![0u8; 32]))
    ));
}

#[test]
fn recoverability_is_good_when_bitmap_covers_all_runs() {
    let bitmap = VolumeBitmap {
        cluster_size: 4096,
        extents: vec![ByteRun {
            offset: 0x1000,
            length: 0x3000,
            sparse: false,
        }],
    };
    let runs = vec![ByteRun {
        offset: 0x1000,
        length: 0x2000,
        sparse: false,
    }];

    assert_eq!(
        assess_recoverability(Some(&bitmap), &runs),
        Recoverability::Good
    );
}

#[test]
fn recoverability_is_partial_when_bitmap_does_not_cover_run() {
    let bitmap = VolumeBitmap {
        cluster_size: 4096,
        extents: vec![ByteRun {
            offset: 0x1000,
            length: 0x1000,
            sparse: false,
        }],
    };
    let runs = vec![ByteRun {
        offset: 0x1000,
        length: 0x3000,
        sparse: false,
    }];

    assert_eq!(
        assess_recoverability(Some(&bitmap), &runs),
        Recoverability::Partial
    );
}

#[test]
fn infers_default_extension_for_detected_kind() {
    assert_eq!(default_extension_for_kind(ArtifactKind::Dll), Some("dll"));
    assert_eq!(default_extension_for_kind(ArtifactKind::Pdf), Some("pdf"));
    assert_eq!(default_extension_for_kind(ArtifactKind::Json), Some("json"));
    assert_eq!(default_extension_for_kind(ArtifactKind::Unknown), None);
}

#[test]
fn reconstructs_file_name_from_original_path() {
    assert_eq!(
        file_name_from_path("C:\\Users\\Public\\vec.dll"),
        Some("vec.dll".to_string())
    );
    assert_eq!(
        file_name_from_path("\\Device\\HarddiskVolume3\\Windows\\Temp\\triage.ps1"),
        Some("triage.ps1".to_string())
    );
}
