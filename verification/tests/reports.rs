//! Reports on a scan.

use files_recovery::model::{
    ArtifactClass, ArtifactKind, ArtifactRecord, Confidence, ContentSourceKind,
    DeletedTimeConfidence, FileSystemKind, NameSourceKind, OriginType, PathConfidence,
    PlacementKind, PreviewFact, RawEvidenceState, Recoverability, RecoveryPlan, ScanCounters,
    ScanMode, ScanPhase, ScanSource, ScanStatus, ScanSummary, SourceKind,
};
use files_recovery::report::{build_dfxml, build_html};
use files_recovery::scan_run::{ScanProgress, StageTimings};
use files_recovery::sessions::ScanSnapshot;

fn fixture_snapshot() -> ScanSnapshot {
    ScanSnapshot {
        summary: ScanSummary {
            scan_id: "scan-1".to_string(),
            source_id: "source-1".to_string(),
            source_name: "System NVMe (C:)".to_string(),
            mode: ScanMode::Fast,
            filesystem: FileSystemKind::Ntfs,
            status: ScanStatus::Completed,
            started_at: "2026-03-10T10:00:00Z".to_string(),
            finished_at: Some("2026-03-10T10:00:30Z".to_string()),
            duration_seconds: Some(30),
            warnings: vec![],
            counters: ScanCounters {
                total_results: 1,
                executable_results: 1,
                archive_results: 0,
                script_results: 0,
                carved_results: 0,
                partial_results: 0,
                recoverable_results: 1,
            },
        },
        source: ScanSource {
            id: "source-1".to_string(),
            kind: SourceKind::LogicalVolume,
            device_path: r"\\.\C:".to_string(),
            mount_point: Some(r"C:\".to_string()),
            display_name: "System NVMe (C:)".to_string(),
            volume_label: Some("Windows".to_string()),
            filesystem: FileSystemKind::Ntfs,
            volume_serial: Some(0x4f2a17c1),
            total_bytes: 100,
            free_bytes: 50,
            cluster_size: Some(4096),
            is_system: true,
            requires_elevation: true,
        },
        progress: ScanProgress {
            scan_id: "scan-1".to_string(),
            status: ScanStatus::Completed,
            phase: ScanPhase::Finalizing,
            stage: "finalize".to_string(),
            files_examined: 1,
            artifacts_found: 1,
            records_scanned: 1,
            candidates_surfaced: 1,
            validated_hits: 1,
            named_hits: 1,
            carved_hits: 0,
            fragment_hits: 0,
            verified_hits: 1,
            recoverable_hits: 1,
            bytes_scanned: 100,
            eta_seconds: Some(0),
            target_sla_seconds: 40,
            raw_evidence_state: RawEvidenceState::NotStarted,
            message: "Done".to_string(),
            stage_timing_ms: StageTimings::new(),
            started_at: "2026-03-10T10:00:00Z".to_string(),
            last_progress_at: "2026-03-10T10:00:30Z".to_string(),
            updated_at: "2026-03-10T10:00:30Z".to_string(),
        },
        results: vec![ArtifactRecord {
            id: "artifact-1".to_string(),
            scan_id: "scan-1".to_string(),
            source_id: "source-1".to_string(),
            name: "payload.exe".to_string(),
            original_path: Some(r"C:\Users\Public\payload.exe".to_string()),
            probable_path: None,
            placement_kind: PlacementKind::OriginalPath,
            path_confidence: PathConfidence::Exact,
            path_evidence: Vec::new(),
            name_source: NameSourceKind::LongName,
            content_source: ContentSourceKind::RawRuns,
            artifact_class: ArtifactClass::ValidatedHit,
            preview_ready: true,
            is_fragment: false,
            fragment_id: None,
            extension: Some("exe".to_string()),
            family: ArtifactKind::Exe.family(),
            kind: ArtifactKind::Exe,
            origin_type: OriginType::FilesystemDeletedEntry,
            confidence: Confidence::High,
            recoverability: Recoverability::Good,
            deleted_entry: true,
            size: 1024,
            priority_score: 100,
            filesystem_record: Some(42),
            parent_reference: Some(5),
            raw_offset: Some(0x1000),
            raw_length: Some(2048),
            created_at: None,
            modified_at: None,
            deleted_at: None,
            deleted_time_source: None,
            deleted_time_confidence: DeletedTimeConfidence::Unknown,
            last_metadata_change_at: None,
            notes: vec!["PE validated".to_string()],
            preview: vec![PreviewFact {
                label: "Machine".to_string(),
                value: "x64".to_string(),
            }],
            recovery_plan: RecoveryPlan::Unrecoverable {
                reason: "fixture".to_string(),
            },
        }],
    }
}

#[test]
fn html_report_contains_primary_scan_values() {
    let html = build_html(&fixture_snapshot());
    assert!(html.contains("Files Scan Report"));
    assert!(html.contains("payload.exe"));
    assert!(html.contains("System NVMe (C:)"));
}

#[test]
fn dfxml_contains_filename_and_origin_metadata() {
    let dfxml = build_dfxml(&fixture_snapshot());
    assert!(dfxml.contains("<scan_id>scan-1</scan_id>"));
    assert!(dfxml.contains("payload.exe"));
    assert!(dfxml.contains("FilesystemDeletedEntry"));
}
