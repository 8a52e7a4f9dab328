//! Recovering contents, and the digests of what was written.

use files_recovery::model::{
    ArtifactRecord, ByteRun, RecoveryPlan, RecoveryRequest, RecoveryStatus, RssError,
};
use files_recovery::recovery::{
    artifact_safe_suffix, last_output_name, metadata_extension, output_candidate, output_name,
    persist_recovered, recover_one, recover_selected, resident_bytes, CopyStep, RecoveryStart,
    RunCopy,
};

const ABC_SHA256: &str = "ba7816bf8f01cfea414140de5dae2223b00361a396177a9cb410ff61f20015ad";
const ABC_BLAKE3: &str = "6437b3ac38465133ffb63b75273a8db548c558465d79db03fd359c6cd5bd9d85";
const NOTHING_SHA256: &str = "e3b0c44298fc1c149afbf4c8996fb92427ae41e4649b934ca495991b7852b855";

fn with_plan(plan: RecoveryPlan) -> ArtifactRecord {
    let mut record = ArtifactRecord::new("scan-1", "vol-c", "a.bin");
    record.id = "artifact-1".to_string();
    record.recovery_plan = plan;
    record
}

fn run(offset: u64, length: u64, sparse: bool) -> ByteRun {
    ByteRun { offset, length, sparse }
}

#[test]
fn unrecoverable_artifacts_keep_their_reason() {
    let artifact = with_plan(RecoveryPlan::Unrecoverable { reason: "no runs".to_string() });
    let Ok(RecoveryStart::Over(item)) = recover_one(&artifact) else {
        panic!("nothing is written");
    };
    assert_eq!(item.artifact_id, "artifact-1");
    assert_eq!(item.status, RecoveryStatus::Unrecoverable);
    assert_eq!(item.notes, vec!["no runs".to_string()]);
    assert!(item.file_path.is_none() && item.sha256.is_none() && item.blake3.is_none());
}

#[test]
fn resident_content_is_decoded_and_cut_to_its_size() {
    let plan = RecoveryPlan::ResidentBase64 {
        base64: "aGVsbG8gd29ybGQ=".to_string(),
        logical_size: 5,
    };
    let Ok(RecoveryStart::Write(bytes)) = recover_one(&with_plan(plan)) else {
        panic!("the content is written");
    };
    assert_eq!(bytes, b"hello".to_vec());
    assert_eq!(resident_bytes(b"hello".to_vec(), 90), b"hello".to_vec());
}

#[test]
fn broken_resident_content_is_refused() {
    let plan =
        RecoveryPlan::ResidentBase64 { base64: "!not base64!".to_string(), logical_size: 5 };
    let Err(RssError::Message(message)) = recover_one(&with_plan(plan)) else {
        panic!("the content cannot be decoded");
    };
    assert_eq!(message, "Resident data could not be decoded");
}

#[test]
fn written_contents_are_digested() {
    let item = persist_recovered(
        "artifact-1",
        "D:\\out\\a.bin",
        "D:\\out\\a.bin.metadata.json",
        b"abc",
        RecoveryStatus::Recovered,
        Vec::new(),
    );
    assert_eq!(item.sha256.as_deref(), Some(ABC_SHA256));
    assert_eq!(item.blake3.as_deref(), Some(ABC_BLAKE3));
    assert_eq!(item.file_path.as_deref(), Some("D:\\out\\a.bin"));
    assert_eq!(item.status, RecoveryStatus::Recovered);
}

#[test]
fn runs_are_copied_in_order_and_digested_as_one() {
    let mut copy = RunCopy::new(vec![run(100, 2, false), run(900, 9, false)], 3);
    let CopyStep::Read { offset, length } = copy.next_step() else {
        panic!("the first run is read");
    };
    assert_eq!((offset, length), (100, 2));
    copy.supply(b"ab");
    let CopyStep::Read { offset, length } = copy.next_step() else {
        panic!("the last run is read as far as the content goes");
    };
    assert_eq!((offset, length), (900, 1));
    copy.supply(b"c");
    assert!(matches!(copy.next_step(), CopyStep::Done));
    let item = copy.finish("artifact-1", "a", "b");
    assert_eq!(item.sha256.as_deref(), Some(ABC_SHA256));
    assert_eq!(item.blake3.as_deref(), Some(ABC_BLAKE3));
    assert_eq!(item.status, RecoveryStatus::Recovered);
    assert!(item.notes.is_empty());
}

#[test]
fn sparse_runs_are_written_as_zeros() {
    let mut copy = RunCopy::new(vec![run(0, 4, true), run(4096, 4, false)], 8);
    let CopyStep::Write(zeros) = copy.next_step() else {
        panic!("zeros are written");
    };
    assert_eq!(zeros, vec![0u8; 4]);
    assert!(matches!(copy.next_step(), CopyStep::Read { offset: 4096, length: 4 }));
    copy.supply(b"DATA");
    assert!(matches!(copy.next_step(), CopyStep::Done));
    let item = copy.finish("artifact-1", "a", "b");
    assert_eq!(
        item.sha256.as_deref(),
        Some("ae5777d001f8a743d48276ce41018dbbb1239ba305092eb6e1ec03d2a62b990f")
    );
    assert_eq!(item.status, RecoveryStatus::RecoveredWithWarnings);
}

#[test]
fn missing_bytes_are_told() {
    let mut copy = RunCopy::new(Vec::new(), 7);
    assert!(matches!(copy.next_step(), CopyStep::Done));
    let item = copy.finish("artifact-1", "a", "b");
    assert_eq!(item.status, RecoveryStatus::Partial);
    assert_eq!(
        item.notes,
        vec!["Recovery stopped early with 7 bytes missing from the logical size.".to_string()]
    );
    assert_eq!(item.sha256.as_deref(), Some(NOTHING_SHA256));
}

#[test]
fn an_empty_run_ends_the_copy() {
    let mut copy = RunCopy::new(vec![run(0, 0, false), run(900, 9, false)], 9);
    assert!(matches!(copy.next_step(), CopyStep::Done));
    assert_eq!(copy.finish("artifact-1", "a", "b").status, RecoveryStatus::Partial);
}

#[test]
fn output_names_hold_no_forbidden_characters() {
    assert_eq!(output_name("report.pdf"), "report.pdf");
    assert_eq!(output_name("a/b:c?.txt"), "abc.txt");
    assert_eq!(output_candidate(Some("report"), Some("pdf"), 1), "report_1.pdf");
    assert_eq!(output_candidate(None, None, 12), "recovered_12");
    assert_eq!(artifact_safe_suffix("2024-01-02T03:04:05Z"), "2024-01-02T03-04-05Z");
    assert_eq!(last_output_name(Some("a"), "2024-01-02T03:04:05Z"), "a_2024-01-02T03-04-05Z");
    assert_eq!(metadata_extension(Some("pdf")), "pdf.metadata.json");
    assert_eq!(metadata_extension(None), "bin.metadata.json");
}

#[test]
fn output_names_are_fronts_of_what_is_left() {
    assert_eq!(output_name(""), "");
    assert_eq!(output_name("."), "");
    assert_eq!(output_name("..."), "");
    assert_eq!(output_name("<.>"), "");
    assert_eq!(output_name("a\u{0}b\u{1f}c\u{7f}d\u{80}\u{9f}e"), "abc\u{7f}de");
    assert_eq!(output_name("\\\\?\\C:\\a|b\"c*.log"), "Cabc.log");
    assert_eq!(output_name(&"a".repeat(300)), "a".repeat(255));
    assert_eq!(output_name(&"é".repeat(200)), "é".repeat(127));
    let cut = format!("{}é", "a".repeat(254));
    assert_eq!(output_name(&cut), "a".repeat(254));
    assert_eq!(output_name(".profile"), ".profile");
    for name in ["con", "LPT1.txt", "name. . "] {
        let given = output_name(name);
        assert!(name.starts_with(&given));
        assert_eq!(output_name(&given), given);
    }
}

#[test]
fn summaries_name_the_request() {
    let request = RecoveryRequest {
        scan_id: "scan-1".to_string(),
        artifact_ids: vec!["artifact-1".to_string()],
        destination: "D:\\out".to_string(),
    };
    let summary = recover_selected(&request, Vec::new(), "start", "end");
    assert_eq!(summary.scan_id, "scan-1");
    assert_eq!(summary.destination, "D:\\out");
    assert_eq!((summary.started_at.as_str(), summary.finished_at.as_str()), ("start", "end"));
    assert!(summary.items.is_empty());
}
