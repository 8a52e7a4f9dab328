//! Raw evidence: directory indexes and the change journal.

use files_recovery::evidence::push_path_evidence;
use files_recovery::i30::{
    align_to_8, apply_indx_fixup, parse_index_root_entries, scan_i30_slack, DirectoryPath,
    INDEX_ENTRY_HEADER_LEN, INDEX_NODE_HEADER_LEN, INDEX_ROOT_HEADER_LEN, INDX_HEADER_LEN,
    NTFS_ATTR_FILE_NAME,
};
use files_recovery::model::{ArtifactRecord, PathConfidence, PathEvidenceSource};
use files_recovery::usn::{
    parse_usn_record, usn_record_to_evidence, DirectoryPaths, UsnRecordRaw,
    USN_REASON_FILE_DELETE,
};


fn file_name_stream(parent: u64, name: &str) -> Vec<u8> {
    let mut bytes = vec![0u8; 0x42 + name.encode_utf16().count() * 2];
    bytes[0..8].copy_from_slice(&parent.to_le_bytes());
    bytes[8..16].copy_from_slice(&132_537_600_000_000_000u64.to_le_bytes());
    bytes[16..24].copy_from_slice(&132_537_600_100_000_000u64.to_le_bytes());
    bytes[24..32].copy_from_slice(&132_537_600_200_000_000u64.to_le_bytes());
    bytes[0x30..0x38].copy_from_slice(&1234u64.to_le_bytes());
    bytes[0x38..0x3c].copy_from_slice(&0x20u32.to_le_bytes());
    bytes[0x40] = name.encode_utf16().count() as u8;
    bytes[0x41] = 1;
    for (index, unit) in name.encode_utf16().enumerate() {
        let start = 0x42 + index * 2;
        bytes[start..start + 2].copy_from_slice(&unit.to_le_bytes());
    }
    bytes
}

fn index_entry(file_ref: u64, stream: &[u8], flags: u16) -> Vec<u8> {
    let len = align_to_8(INDEX_ENTRY_HEADER_LEN + stream.len());
    let mut bytes = vec![0u8; len];
    bytes[0..8].copy_from_slice(&file_ref.to_le_bytes());
    bytes[8..10].copy_from_slice(&(len as u16).to_le_bytes());
    bytes[10..12].copy_from_slice(&(stream.len() as u16).to_le_bytes());
    bytes[12..14].copy_from_slice(&flags.to_le_bytes());
    bytes[INDEX_ENTRY_HEADER_LEN..INDEX_ENTRY_HEADER_LEN + stream.len()]
        .copy_from_slice(stream);
    bytes
}

#[test]
fn parses_index_root_resident_file_name() {
    let mut root = vec![0u8; INDEX_ROOT_HEADER_LEN + INDEX_NODE_HEADER_LEN];
    root[0..4].copy_from_slice(&NTFS_ATTR_FILE_NAME.to_le_bytes());
    root[8..12].copy_from_slice(&(4096u32).to_le_bytes());
    root[INDEX_ROOT_HEADER_LEN..INDEX_ROOT_HEADER_LEN + 4]
        .copy_from_slice(&(INDEX_NODE_HEADER_LEN as u32).to_le_bytes());
    let stream = file_name_stream(0x3000_0000_0000_002a, "demo.jar");
    let entry = index_entry(0x4000_0000_0000_0100, &stream, 0);
    let node_size = (INDEX_NODE_HEADER_LEN + entry.len()) as u32;
    root[INDEX_ROOT_HEADER_LEN + 4..INDEX_ROOT_HEADER_LEN + 8]
        .copy_from_slice(&node_size.to_le_bytes());
    root.extend_from_slice(&entry);

    let directory = DirectoryPath {
        path: "C:\\ProgramData".to_string(),
        confidence: PathConfidence::Exact,
    };
    let entries = parse_index_root_entries(&root, Some(&directory));

    assert_eq!(entries.len(), 1);
    assert_eq!(entries[0].name, "demo.jar");
    assert_eq!(
        entries[0].path.as_deref(),
        Some("C:\\ProgramData\\demo.jar")
    );
    assert!(!entries[0].from_slack);
}

#[test]
fn rejects_bad_indx_fixup() {
    let mut buffer = vec![0u8; 4096];
    buffer[0..4].copy_from_slice(b"INDX");
    buffer[4..6].copy_from_slice(&(0x28u16).to_le_bytes());
    buffer[6..8].copy_from_slice(&(2u16).to_le_bytes());
    buffer[0x28..0x2a].copy_from_slice(&0xaaaa_u16.to_le_bytes());
    buffer[0x2a..0x2c].copy_from_slice(&0xbbbb_u16.to_le_bytes());
    buffer[510..512].copy_from_slice(&0xcccc_u16.to_le_bytes());

    assert!(apply_indx_fixup(&mut buffer).is_err());
}

#[test]
fn parses_slack_i30_entry_after_used_entries() {
    let mut buffer = vec![0u8; 4096];
    buffer[0..4].copy_from_slice(b"INDX");
    let node = INDX_HEADER_LEN;
    buffer[node..node + 4].copy_from_slice(&(INDEX_NODE_HEADER_LEN as u32).to_le_bytes());
    buffer[node + 4..node + 8].copy_from_slice(&(INDEX_NODE_HEADER_LEN as u32).to_le_bytes());
    let stream = file_name_stream(0x3000_0000_0000_002a, "lost.jar");
    let entry = index_entry(0x4000_0000_0000_0200, &stream, 0);
    let slack_start = align_to_8(node + INDEX_NODE_HEADER_LEN);
    buffer[slack_start..slack_start + entry.len()].copy_from_slice(&entry);
    let directory = DirectoryPath {
        path: "C:\\ProgramData".to_string(),
        confidence: PathConfidence::Exact,
    };

    let entries = scan_i30_slack(&buffer, Some(&directory), 4096);

    assert_eq!(entries.len(), 1);
    assert!(entries[0].from_slack);
    assert_eq!(entries[0].name, "lost.jar");
}

#[test]
fn parses_usn_v2_delete_record() {
    let name = "old.jar";
    let name_bytes = name
        .encode_utf16()
        .flat_map(|unit| unit.to_le_bytes())
        .collect::<Vec<_>>();
    let record_len = align_to_8(60 + name_bytes.len());
    let mut bytes = vec![0u8; record_len];
    bytes[0..4].copy_from_slice(&(record_len as u32).to_le_bytes());
    bytes[4..6].copy_from_slice(&2u16.to_le_bytes());
    bytes[8..16].copy_from_slice(&0x4000_0000_0000_0200u64.to_le_bytes());
    bytes[16..24].copy_from_slice(&0x3000_0000_0000_002au64.to_le_bytes());
    bytes[24..32].copy_from_slice(&42i64.to_le_bytes());
    bytes[32..40].copy_from_slice(&132_537_600_000_000_000i64.to_le_bytes());
    bytes[40..44].copy_from_slice(&USN_REASON_FILE_DELETE.to_le_bytes());
    bytes[56..58].copy_from_slice(&(name_bytes.len() as u16).to_le_bytes());
    bytes[58..60].copy_from_slice(&60u16.to_le_bytes());
    bytes[60..60 + name_bytes.len()].copy_from_slice(&name_bytes);

    let parsed = parse_usn_record(&bytes).expect("record should parse").0;

    assert_eq!(parsed.file_reference, 0x4000_0000_0000_0200);
    assert_eq!(parsed.parent_reference, 0x3000_0000_0000_002a);
    assert_eq!(parsed.name, "old.jar");
    assert_ne!(parsed.reason & USN_REASON_FILE_DELETE, 0);
}

#[test]
fn usn_evidence_uses_parent_path_without_open_file_by_id() {
    let mut dirs = DirectoryPaths::new();
    dirs.insert(
        0x3000_0000_0000_002a,
        DirectoryPath {
            path: "C:\\ProgramData".to_string(),
            confidence: PathConfidence::Exact,
        },
    );
    let raw = UsnRecordRaw {
        file_reference: 0x4000_0000_0000_0200,
        parent_reference: 0x3000_0000_0000_002a,
        timestamp: 132_537_600_000_000_000,
        reason: USN_REASON_FILE_DELETE,
        name: "old.jar".to_string(),
    };

    let evidence = usn_record_to_evidence(raw, &dirs).expect("evidence");

    assert_eq!(evidence.path.as_deref(), Some("C:\\ProgramData\\old.jar"));
    assert!(evidence.timestamp.is_some());
}

#[test]
fn path_evidence_does_not_duplicate_same_source() {
    let mut artifact = ArtifactRecord::new("scan", "source", "demo.jar");
    push_path_evidence(
        &mut artifact,
        PathEvidenceSource::I30,
        Some("C:\\demo.jar".to_string()),
        PathConfidence::Partial,
        "first",
    );
    push_path_evidence(
        &mut artifact,
        PathEvidenceSource::I30,
        Some("C:\\demo.jar".to_string()),
        PathConfidence::Partial,
        "second",
    );

    assert_eq!(artifact.path_evidence.len(), 1);
}
