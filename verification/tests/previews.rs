//! Preview sessions.

use base64::engine::general_purpose::STANDARD;
use base64::Engine;
use files_recovery::model::{
    ArchivePreviewEntryStatus, ArtifactClass, ArtifactKind, ArtifactPreviewMode, ArtifactRecord,
    ArtifactSignatureStatus, Confidence, ContentSourceKind, ContentTarget, FileSystemKind,
    NameSourceKind, OriginType, PathConfidence, PlacementKind, PreviewSessionOpenRequest,
    Recoverability, RecoveryPlan, RssError, ScanSource, SourceAccessState, SourceEntry,
    SourceEntryClass, SourceKind,
};
use files_recovery::preview::MAX_ARCHIVE_PREVIEW_BYTES;
use files_recovery::preview_reads::{materialize_artifact_bytes, source_entry_summary};
use files_recovery::preview_session::{
    open_preview_session_for_target, prepare_artifact_preview_session,
    prepare_entry_preview_session, read_entry_preview_chunk, PreparedPreviewSession,
    PreviewSessionTarget,
};
use files_recovery::signature::{inspect_entry_signature, SignatureStep};

fn test_source() -> ScanSource {
    ScanSource {
        id: "vol-c".to_string(),
        kind: SourceKind::LogicalVolume,
        device_path: "\\\\.\\C:".to_string(),
        mount_point: Some("C:\\".to_string()),
        display_name: "C:".to_string(),
        volume_label: Some("System".to_string()),
        filesystem: FileSystemKind::Ntfs,
        volume_serial: Some(0x1234),
        total_bytes: 1,
        free_bytes: 1,
        cluster_size: Some(4096),
        is_system: true,
        requires_elevation: true,
    }
}

fn test_entry(path: &str) -> SourceEntry {
    SourceEntry {
        name: path.rsplit('\\').next().unwrap_or(path).to_string(),
        path: path.to_string(),
        parent_path: "C:\\".to_string(),
        mft_reference: Some(42),
        parent_reference: Some(5),
        extension: Some("zip".to_string()),
        is_directory: false,
        has_children: Some(false),
        is_metafile: false,
        entry_class: SourceEntryClass::File,
        size: 512,
        created_at: None,
        modified_at: None,
        accessed_at: None,
        hidden: false,
        system: false,
        read_only: false,
        attr_bits: Some(0x20),
        attributes: vec!["archive".to_string()],
        deleted_hits: 0,
        access_state: SourceAccessState::Readable,
    }
}

fn denied_sys_entry(path: &str) -> SourceEntry {
    let mut entry = test_entry(path);
    entry.extension = Some("sys".to_string());
    entry.system = true;
    entry.attributes = vec!["system".to_string(), "access_denied".to_string()];
    entry.access_state = SourceAccessState::Denied;
    entry.mft_reference = None;
    entry
}

fn resident_artifact(name: &str, bytes: &[u8]) -> ArtifactRecord {
    let mut artifact = ArtifactRecord::new("scan-1", "vol-c", name);
    artifact.kind = ArtifactKind::Zip;
    artifact.family = ArtifactKind::Zip.family();
    artifact.origin_type = OriginType::FilesystemDeletedEntry;
    artifact.confidence = Confidence::High;
    artifact.recoverability = Recoverability::Good;
    artifact.deleted_entry = true;
    artifact.size = bytes.len() as u64;
    artifact.preview_ready = true;
    artifact.placement_kind = PlacementKind::OriginalPath;
    artifact.path_confidence = PathConfidence::Exact;
    artifact.name_source = NameSourceKind::LongName;
    artifact.content_source = ContentSourceKind::ResidentData;
    artifact.artifact_class = ArtifactClass::ValidatedHit;
    artifact.original_path = Some(format!("C:\\{name}"));
    artifact.recovery_plan = RecoveryPlan::ResidentBase64 {
        base64: STANDARD.encode(bytes),
        logical_size: bytes.len() as u64,
    };
    artifact
}

fn message(text: &str) -> RssError {
    RssError::Message(text.to_string())
}

fn artifact_session(
    artifact: &ArtifactRecord,
    mode: ArtifactPreviewMode,
) -> PreparedPreviewSession {
    let read = materialize_artifact_bytes(artifact, MAX_ARCHIVE_PREVIEW_BYTES, &Vec::new());
    prepare_artifact_preview_session(artifact, mode, read)
}

#[test]
fn preview_session_uses_entry_hint_without_forcing_entry_lookup() {
    let request = PreviewSessionOpenRequest {
        target: ContentTarget::Entry {
            source_id: "vol-c".to_string(),
            path: "C:\\Users\\jumarf\\broken.zip".to_string(),
        },
        entry_hint: Some(test_entry("C:\\Users\\jumarf\\broken.zip")),
        mode: ArtifactPreviewMode::Hex,
    };
    let (prepared, target) = open_preview_session_for_target(
        |_: &str| Ok(test_source()),
        |_: &ScanSource, _: &str| Err(message("entry lookup should not run")),
        |_: &str, _: &str| Err(message("artifact lookup should not run")),
        |_: &PreviewSessionTarget| Err(message("no archive is read")),
        &request,
    )
    .expect("preview session");

    assert_eq!(prepared.resolved_mode, ArtifactPreviewMode::Hex);
    match target {
        PreviewSessionTarget::Entry { entry, .. } => {
            assert_eq!(entry.path, "C:\\Users\\jumarf\\broken.zip");
        }
        PreviewSessionTarget::Artifact(_) => panic!("expected entry target"),
    }
}

#[test]
fn corrupted_archive_preview_falls_back_to_hex_session() {
    let artifact = resident_artifact("broken.zip", b"PK\x03\x04not-a-real-zip");
    let prepared = artifact_session(&artifact, ArtifactPreviewMode::Auto);
    assert_eq!(prepared.resolved_mode, ArtifactPreviewMode::Hex);
    assert!(
        prepared
            .warnings
            .iter()
            .any(|warning| warning.contains("chunked hex view"))
    );
}

#[test]
fn tar_archive_preview_lists_entries() {
    let mut bytes = Vec::new();
    {
        let mut builder = tar::Builder::new(&mut bytes);
        let payload = b"hello from tar";
        let mut header = tar::Header::new_gnu();
        header.set_size(payload.len() as u64);
        header.set_mode(0o644);
        header.set_cksum();
        builder
            .append_data(&mut header, "docs/readme.txt", &payload[..])
            .expect("append tar entry");
        builder.finish().expect("finish tar archive");
    }

    let mut artifact = resident_artifact("archive.tar", &bytes);
    artifact.kind = ArtifactKind::Tar;
    artifact.family = ArtifactKind::Tar.family();
    let prepared = artifact_session(&artifact, ArtifactPreviewMode::Auto);

    assert_eq!(prepared.resolved_mode, ArtifactPreviewMode::Archive);
    let listing = prepared.archive_listing.expect("tar listing");
    assert_eq!(listing.total_entries, Some(1));
    assert_eq!(listing.entries[0].path, "docs/readme.txt");
}

#[test]
fn gzip_archive_preview_uses_summary_session() {
    let mut artifact = resident_artifact("payload.gz", b"\x1F\x8B\x08placeholder");
    artifact.kind = ArtifactKind::Gzip;
    artifact.family = ArtifactKind::Gzip.family();
    let prepared = artifact_session(&artifact, ArtifactPreviewMode::Auto);

    assert_eq!(prepared.resolved_mode, ArtifactPreviewMode::Archive);
    let listing = prepared.archive_listing.expect("summary listing");
    assert_eq!(listing.total_entries, Some(1));
    assert_eq!(
        listing.entries[0].status,
        ArchivePreviewEntryStatus::Unsupported
    );
}

#[test]
fn denied_sys_preview_session_opens_without_reading_bytes() {
    let entry = denied_sys_entry("C:\\Windows\\System32\\drivers\\blocked.sys");
    let prepared = prepare_entry_preview_session(
        &test_source(),
        &entry,
        ArtifactPreviewMode::Auto,
        Err(message("no bytes are read")),
    );
    assert_eq!(prepared.resolved_mode, ArtifactPreviewMode::Hex);
    assert!(!prepared.warnings.is_empty());
}

#[test]
fn denied_sys_preview_chunk_returns_warning_instead_of_error() {
    let entry = denied_sys_entry("C:\\Windows\\System32\\drivers\\blocked.sys");
    let prepared = PreparedPreviewSession {
        target_key: format!("entry:{}:{}", test_source().id, entry.path),
        requested_mode: ArtifactPreviewMode::Hex,
        resolved_mode: ArtifactPreviewMode::Hex,
        total_size: entry.size,
        summary: source_entry_summary(&entry),
        warnings: Vec::new(),
        archive_listing: None,
    };
    let chunk = read_entry_preview_chunk(
        "session-1",
        &entry,
        &prepared,
        0,
        4096,
        Err(message("no bytes are read")),
    );
    assert_eq!(chunk.length, 0);
    assert!(chunk.hex_rows.is_empty());
    assert!(
        chunk
            .warnings
            .iter()
            .any(|warning| warning.contains("Preview bytes are unavailable"))
    );
}

#[test]
fn protected_swapfile_uses_hex_without_eager_probe() {
    let mut entry = denied_sys_entry("C:\\swapfile.sys");
    entry.name = "swapfile.sys".to_string();
    entry.path = "C:\\swapfile.sys".to_string();
    entry.access_state = SourceAccessState::Readable;
    entry.attributes = vec!["hidden".to_string(), "system".to_string()];

    let prepared = prepare_entry_preview_session(
        &test_source(),
        &entry,
        ArtifactPreviewMode::Auto,
        Err(message("no bytes are read")),
    );
    assert_eq!(prepared.resolved_mode, ArtifactPreviewMode::Hex);
    assert!(
        prepared
            .warnings
            .iter()
            .any(|warning| warning.contains("chunked hex preview"))
    );
}

#[test]
fn protected_swapfile_signature_is_skipped() {
    let mut entry = denied_sys_entry("C:\\swapfile.sys");
    entry.name = "swapfile.sys".to_string();
    entry.path = "C:\\swapfile.sys".to_string();
    entry.access_state = SourceAccessState::Readable;

    let result = match inspect_entry_signature(&entry) {
        SignatureStep::Answer(summary) => summary,
        SignatureStep::Check { .. } => panic!("signature summary"),
    };
    assert_eq!(result.status, ArtifactSignatureStatus::Indeterminate);
    assert_eq!(result.verification_source, "policy:live-system-file");
}
