//! What the library promises of more than one call, on concrete values.

use files_recovery::carver::{build_scan_segments, carve_high_priority};
use files_recovery::evidence::{push_capped_warning, EvidenceMerger};
use files_recovery::evidence_run::refine_raw_evidence;
use files_recovery::i30::{apply_indx_fixup, I30Entry};
use files_recovery::model::{
    ArtifactClass, ArtifactPreviewMode, ArtifactPreviewRequest, ArtifactRecord, ByteRun,
    Confidence, DeletedTimeConfidence, FileSystemKind, NameSourceKind, PathConfidence,
    PlacementKind, RecoveryPlan, ScanSource, SourceKind,
};
use files_recovery::ntfs_paths::{
    reconstruct_file_name_candidate_path, BestName, MftIndex, MftRecord, PathCache,
};
use files_recovery::ntfs_records::preview_facts;
use files_recovery::numbers::{decimal_string, parse_u64};
use files_recovery::preview::{build_preview, plan_preview, PreviewStep};
use files_recovery::preview_reads::read_artifact_range;
use files_recovery::recycle_bin::{apply_recycle_metadata, RecycleBinMetadata};
use files_recovery::refinement::refinement_config;
use files_recovery::report::xml_escape;
use files_recovery::usn::{UsnEvidence, USN_REASON_FILE_DELETE};
use files_recovery::utf16::{decode_utf16, decode_utf16_lossy};

fn volume() -> ScanSource {
    ScanSource {
        id: "vol-d".to_string(),
        kind: SourceKind::LogicalVolume,
        device_path: r"\\.\D:".to_string(),
        mount_point: Some(r"D:\".to_string()),
        display_name: "Data (D:)".to_string(),
        volume_label: None,
        filesystem: FileSystemKind::Ntfs,
        volume_serial: None,
        total_bytes: 1 << 30,
        free_bytes: 1 << 20,
        cluster_size: Some(4096),
        is_system: false,
        requires_elevation: true,
    }
}

fn record(number: u64, sequence: u64, directory: bool, name: &str, parent: u64) -> MftRecord {
    MftRecord {
        reference: (sequence << 48) | number,
        used: true,
        directory,
        best_name: Some(BestName { name: name.to_string(), parent_reference: parent }),
    }
}

const ROOT: u64 = (5 << 48) | 5;

/// The root and, as record six, a folder in it.
fn table() -> MftIndex {
    let mut records: Vec<Option<MftRecord>> = (0..7).map(|_| None).collect();
    records[5] = Some(record(5, 5, true, ".", ROOT));
    records[6] = Some(record(6, 2, true, "Docs", ROOT));
    MftIndex { volume_path: r"\\.\D:".to_string(), records }
}

fn entry_of(reference: u64) -> I30Entry {
    I30Entry {
        file_reference: reference,
        parent_reference: (2 << 48) | 6,
        name: "plan.docx".to_string(),
        path: Some(r"D:\Docs\plan.docx".to_string()),
        path_confidence: PathConfidence::Exact,
        size: 77,
        from_slack: true,
        created_at: Some("2024-01-01T00:00:00Z".to_string()),
        modified_at: None,
        last_metadata_change_at: Some("2024-01-02T00:00:00Z".to_string()),
    }
}

fn journal_record_of(reference: u64) -> UsnEvidence {
    UsnEvidence {
        file_reference: reference,
        parent_reference: (2 << 48) | 6,
        name: "plan.docx".to_string(),
        reason: USN_REASON_FILE_DELETE,
        timestamp: Some("2024-02-01T00:00:00Z".to_string()),
        path: Some(r"D:\Docs\plan.docx".to_string()),
    }
}

#[test]
fn evidence_that_comes_twice_says_no_more() {
    let mft = table();
    let mut known = ArtifactRecord::new("scan-1", "vol-d", "deleted_record_30");
    known.filesystem_record = Some(30);
    known.confidence = Confidence::Low;
    let reference = (9 << 48) | 30;
    let mut once = EvidenceMerger::new("scan-1", "vol-d", &mft, vec![known.clone()]);
    once.apply_i30(&mft, entry_of(reference));
    once.apply_usn(&mft, journal_record_of(reference));
    let once = once.finish();
    let mut twice = EvidenceMerger::new("scan-1", "vol-d", &mft, vec![known]);
    twice.apply_i30(&mft, entry_of(reference));
    twice.apply_i30(&mft, entry_of(reference));
    twice.apply_usn(&mft, journal_record_of(reference));
    twice.apply_usn(&mft, journal_record_of(reference));
    let twice = twice.finish();
    assert_eq!(format!("{once:?}"), format!("{twice:?}"));

    assert_eq!(once.len(), 1);
    assert_eq!(once[0].name, "plan.docx");
    assert_eq!(once[0].name_source, NameSourceKind::Reconstructed);
    assert_eq!(once[0].confidence, Confidence::Medium);
    assert_eq!(once[0].probable_path.as_deref(), Some(r"D:\Docs\plan.docx"));
    assert_eq!(once[0].path_confidence, PathConfidence::Partial);
    assert_eq!(once[0].artifact_class, ArtifactClass::NamedMetadataCandidate);
    assert_eq!(once[0].deleted_at.as_deref(), Some("2024-02-01T00:00:00Z"));
    assert_eq!(once[0].path_evidence.len(), 2);
}

#[test]
fn evidence_leaves_original_paths_and_plans_alone() {
    let mft = table();
    let mut known = ArtifactRecord::new("scan-1", "vol-d", "kept.docx");
    known.filesystem_record = Some(30);
    known.original_path = Some(r"D:\kept.docx".to_string());
    known.recovery_plan = RecoveryPlan::ResidentBase64 {
        base64: "aGk=".to_string(),
        logical_size: 2,
    };
    let mut merger = EvidenceMerger::new("scan-1", "vol-d", &mft, vec![known]);
    merger.apply_i30(&mft, entry_of((9 << 48) | 30));
    merger.apply_usn(&mft, journal_record_of((9 << 48) | 30));
    let merged = merger.finish();
    assert_eq!(merged[0].name, "kept.docx");
    assert_eq!(merged[0].original_path.as_deref(), Some(r"D:\kept.docx"));
    assert_eq!(merged[0].probable_path, None);
    assert!(matches!(merged[0].recovery_plan, RecoveryPlan::ResidentBase64 { .. }));
}

#[test]
fn files_known_only_from_slack_or_journal_are_added_once() {
    let mft = table();
    let mut merger = EvidenceMerger::new("scan-1", "vol-d", &mft, Vec::new());
    merger.apply_i30(&mft, entry_of((9 << 48) | 40));
    merger.apply_i30(&mft, entry_of((9 << 48) | 40));
    merger.apply_usn(&mft, journal_record_of((9 << 48) | 41));
    let mut live = entry_of((9 << 48) | 42);
    live.from_slack = false;
    merger.apply_i30(&mft, live);
    let found = merger.finish();
    assert_eq!(found.len(), 2);
    assert_eq!(found[0].filesystem_record, Some(40));
    assert_eq!(found[0].size, 77);
    assert_eq!(found[0].confidence, Confidence::Low);
    assert_eq!(found[1].filesystem_record, Some(41));
    assert_eq!(found[1].confidence, Confidence::Medium);
}

#[test]
fn warnings_of_one_kind_are_capped_and_never_lost() {
    let mut warnings = Vec::new();
    for number in 0..12 {
        push_capped_warning(&mut warnings, format!("[raw:i30:warning] record {number}"));
    }
    assert_eq!(warnings.len(), 8);
    push_capped_warning(&mut warnings, "[raw:i30:warning] record 3".to_string());
    assert_eq!(warnings.len(), 8);
    push_capped_warning(&mut warnings, "[raw:usn:warning] other".to_string());
    assert_eq!(warnings.len(), 9);
    assert_eq!(warnings[0], "[raw:i30:warning] record 0");
}

#[test]
fn sparse_directory_maps_are_told() {
    let source = volume();
    let start = |warnings| {
        refine_raw_evidence(&source, &refinement_config(), 7, warnings)
            .expect("the source is NTFS")
            .expect("evidence is wanted")
    };
    let mut run = start(vec!["before".to_string()]);
    let paths = run.directory_paths(&source, &table());
    assert_eq!(paths.get(ROOT).map(|d| d.path.as_str()), Some("D:"));
    assert_eq!(paths.get((2 << 48) | 6).map(|d| d.path.as_str()), Some(r"D:\Docs"));
    assert_eq!(run.warnings().len(), 1);

    let empty = MftIndex { volume_path: r"\\.\D:".to_string(), records: Vec::new() };
    let mut run = start(Vec::new());
    assert_eq!(run.directory_paths(&source, &empty).len(), 0);
    assert_eq!(run.warnings().len(), 1);
    assert!(run.warnings()[0].starts_with("[raw:i30:warning] Directory path map is sparse"));
}

#[test]
fn fixups_put_back_what_sectors_ended_with() {
    let mut buffer = vec![0x11u8; 1024];
    buffer[0..4].copy_from_slice(b"INDX");
    buffer[4..6].copy_from_slice(&0x28u16.to_le_bytes());
    buffer[6..8].copy_from_slice(&3u16.to_le_bytes());
    buffer[0x28..0x2a].copy_from_slice(&[0xab, 0xcd]);
    buffer[0x2a..0x2c].copy_from_slice(&[1, 2]);
    buffer[0x2c..0x2e].copy_from_slice(&[3, 4]);
    buffer[510..512].copy_from_slice(&[0xab, 0xcd]);
    buffer[1022..1024].copy_from_slice(&[0xab, 0xcd]);
    let before = buffer.clone();
    assert!(apply_indx_fixup(&mut buffer).is_ok());
    assert_eq!(&buffer[510..512], &[1, 2]);
    assert_eq!(&buffer[1022..1024], &[3, 4]);
    assert_eq!(&buffer[..510], &before[..510]);
    assert_eq!(&buffer[512..1022], &before[512..1022]);
}

#[test]
fn stale_parents_never_give_exact_paths() {
    let mft = table();
    let mut cache = PathCache::new();
    let fresh = reconstruct_file_name_candidate_path(
        &mft,
        &mut cache,
        (9 << 48) | 30,
        "plan.docx",
        (2 << 48) | 6,
    )
    .expect("the parent is known");
    assert_eq!(fresh.path, r"\\.\D:\Docs\plan.docx");
    assert_eq!(fresh.confidence, PathConfidence::Exact);
    assert_eq!(fresh.placement_kind, PlacementKind::OriginalPath);
    let stale = reconstruct_file_name_candidate_path(
        &mft,
        &mut PathCache::new(),
        (9 << 48) | 30,
        "plan.docx",
        (1 << 48) | 6,
    )
    .expect("the parent's record is known");
    assert_eq!(stale.path, r"\\.\D:\Docs\plan.docx");
    assert_eq!(stale.confidence, PathConfidence::Partial);
}

#[test]
fn the_recycle_bin_gives_paths_but_takes_none() {
    let told = RecycleBinMetadata {
        original_path: r"D:\old\name.txt".to_string(),
        deleted_at: Some("2024-03-01T00:00:00Z".to_string()),
    };
    let mut nameless = ArtifactRecord::new("scan-1", "vol-d", "$RABC123.txt");
    apply_recycle_metadata(&mut nameless, &told);
    assert_eq!(nameless.original_path.as_deref(), Some(r"D:\old\name.txt"));
    assert_eq!(nameless.deleted_time_confidence, DeletedTimeConfidence::Exact);
    let mut placed = ArtifactRecord::new("scan-1", "vol-d", "$RABC123.txt");
    placed.original_path = Some(r"D:\known.txt".to_string());
    apply_recycle_metadata(&mut placed, &told);
    assert_eq!(placed.original_path.as_deref(), Some(r"D:\known.txt"));
}

#[test]
fn resident_files_come_back_as_they_were_stored() {
    let mut artifact = ArtifactRecord::new("scan-1", "vol-d", "note.txt");
    artifact.size = 11;
    artifact.recovery_plan = RecoveryPlan::ResidentBase64 {
        base64: "aGVsbG8gd29ybGQ=".to_string(),
        logical_size: 11,
    };
    let whole = read_artifact_range(&artifact, 0, 11, &Vec::new()).expect("the bytes are held");
    assert_eq!(whole, b"hello world");
    let part = read_artifact_range(&artifact, 6, 100, &Vec::new()).expect("the bytes are held");
    assert_eq!(part, b"world");
}

#[test]
fn previews_tell_whether_more_is_left() {
    let mut artifact = ArtifactRecord::new("scan-1", "vol-d", "data.bin");
    artifact.size = 1000;
    let request = ArtifactPreviewRequest {
        scan_id: "scan-1".to_string(),
        artifact_id: artifact.id.clone(),
        mode: ArtifactPreviewMode::Hex,
        offset: Some(20),
        length: Some(300),
        max_entries: None,
    };
    let plan = plan_preview(&artifact, &request);
    assert_eq!(plan.next_read(), (20, 300));
    match build_preview(&artifact, plan, Ok(vec![0x41; 300])) {
        PreviewStep::Done(Ok(preview)) => {
            assert!(preview.has_more);
            assert_eq!((preview.offset, preview.length), (20, 300));
            assert_eq!(preview.hex_rows.len(), 19);
        }
        _ => panic!("one read is enough for a hexadecimal preview"),
    }
    let last = ArtifactPreviewRequest { offset: Some(990), ..request };
    let plan = plan_preview(&artifact, &last);
    assert_eq!(plan.next_read(), (990, 10));
    match build_preview(&artifact, plan, Ok(vec![0x41; 10])) {
        PreviewStep::Done(Ok(preview)) => assert!(!preview.has_more),
        _ => panic!("one read is enough for a hexadecimal preview"),
    }
}

#[test]
fn texts_of_a_scan_become_no_markup() {
    let escaped = xml_escape("<a href=\"x\">Tom & 'Jerry'</a>");
    assert!(!escaped.contains('<'));
    assert!(!escaped.contains('>'));
    assert!(!escaped.contains('"'));
    assert!(!escaped.contains('\''));
    assert!(escaped.starts_with("&lt;a href="));
}

#[test]
fn numbers_are_read_back_as_written() {
    for number in [0, 7, 10, 4096, u64::MAX] {
        assert_eq!(parse_u64(&decimal_string(number)), Some(number));
    }
    assert_eq!(decimal_string(u64::MAX), "18446744073709551615");
    assert_eq!(parse_u64("18446744073709551616"), None);
    assert_eq!(parse_u64(""), None);
}

#[test]
fn sound_wide_texts_are_read_alike() {
    let units: Vec<u16> = "Größe 𝄞".encode_utf16().collect();
    assert_eq!(decode_utf16(&units).as_deref(), Some("Größe 𝄞"));
    assert_eq!(decode_utf16_lossy(&units), "Größe 𝄞");
    assert_eq!(decode_utf16(&[0xd834]), None);
    assert_eq!(decode_utf16_lossy(&[0xd834]), "\u{fffd}");
}

#[test]
fn carving_reads_every_free_byte_once_within_its_budget() {
    let extents = vec![
        ByteRun { offset: 0x100_0000, length: 0x90_0000, sparse: false },
        ByteRun { offset: 0x1000, length: 0x2000, sparse: false },
    ];
    let mut pass = carve_high_priority(&extents, Some(4096), None);
    let mut covered: Vec<(u64, u64)> = Vec::new();
    while let Some(chunk) = pass.next_chunk() {
        assert!(chunk.read_length >= chunk.chunk_length);
        covered.push((chunk.offset, chunk.chunk_length));
        pass.complete_chunk();
    }
    covered.sort();
    assert_eq!(covered.iter().map(|(_, length)| length).sum::<u64>(), 0x90_2000);
    assert!(covered.windows(2).all(|pair| pair[0].0 + pair[0].1 <= pair[1].0));
    assert_eq!(pass.scanned(), 0x90_2000);

    let mut short = carve_high_priority(&extents, Some(4096), Some(0x3000));
    let mut total = 0;
    while let Some(chunk) = short.next_chunk() {
        total += chunk.chunk_length;
        short.complete_chunk();
    }
    assert_eq!(total, 0x3000);
}

#[test]
fn segments_part_all_free_extents() {
    let extents = vec![
        ByteRun { offset: 0x50_0000, length: 0x5_0000, sparse: false },
        ByteRun { offset: 0x1000, length: 0x4_0000, sparse: false },
        ByteRun { offset: 0x20_0000, length: 0x10_0000, sparse: true },
        ByteRun { offset: 0x4_1000, length: 0x4_0001, sparse: false },
        ByteRun { offset: 0x60_0000, length: 0, sparse: false },
    ];
    let mut segments: Vec<(u64, u64)> =
        build_scan_segments(&extents).iter().map(|s| (s.offset, s.offset + s.length)).collect();
    segments.sort();
    assert!(segments.windows(2).all(|pair| pair[0].1 <= pair[1].0));
    let mut joined: Vec<(u64, u64)> = Vec::new();
    for (start, end) in segments {
        assert!(start < end);
        match joined.last_mut() {
            Some(last) if last.1 == start => last.1 = end,
            _ => joined.push((start, end)),
        }
    }
    assert_eq!(joined, vec![(0x1000, 0x8_1001), (0x50_0000, 0x55_0000)]);
}

#[test]
fn previewed_bytes_are_named_by_their_signature() {
    let facts = preview_facts(b"%PDF-1.7\n");
    assert_eq!(facts.len(), 2);
    assert_eq!((facts[0].label.as_str(), facts[0].value.as_str()), ("Signature", "PDF document"));
    assert_eq!(facts[1].label, "Preview Captured");
    let unknown = preview_facts(b"\x00\x01\x02\x03");
    assert_eq!(unknown.len(), 1);
}
