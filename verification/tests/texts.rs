//! Texts, times and signatures that other crates read and write.

use files_recovery::clock::{
    duration_seconds, elapsed_seconds, format_ntfs_filetime, format_time, iso_of, now_iso,
    ntfs_to_unix_time,
};
use files_recovery::kinds::new_scan_id;
use files_recovery::model::{ArtifactRecord, ArtifactSignatureStatus, RssError};
use files_recovery::preview_text::{build_hex_rows, decode_text_excerpt, text_excerpt};
use files_recovery::scan_run::ScanProgress;
use files_recovery::signature::{
    encoded_signature_command, inspect_signature, inspect_signature_from_path,
    map_signature_status, sanitize_temp_name, signature_script, utf16_le_bytes, SignatureStep,
};
use files_recovery::utf16::{decode_utf16, decode_utf16_lossy};

#[test]
fn times_are_written_in_rfc_3339() {
    assert_eq!(iso_of(0), "1970-01-01T00:00:00Z");
    assert_eq!(iso_of(1_700_000_000_000_000_000), "2023-11-14T22:13:20Z");
    assert_eq!(iso_of(i128::MAX), "1970-01-01T00:00:00Z");
    assert_eq!(format_time(Some(1_500_000_000)).as_deref(), Some("1970-01-01T00:00:01.5Z"));
    assert_eq!(format_time(None), None);
}

#[test]
fn stored_times_count_from_1601() {
    assert_eq!(ntfs_to_unix_time(116_444_736_000_000_000), 0);
    assert_eq!(ntfs_to_unix_time(116_444_736_010_000_000), 1_000_000_000);
    assert_eq!(ntfs_to_unix_time(5), 0);
    assert_eq!(
        format_ntfs_filetime(116_444_736_010_000_000).as_deref(),
        Some("1970-01-01T00:00:01Z")
    );
    assert_eq!(format_ntfs_filetime(0), None);
    assert_eq!(format_ntfs_filetime(u64::MAX).as_deref(), Some("1970-01-01T00:00:00Z"));
}

#[test]
fn durations_are_never_negative() {
    assert_eq!(
        duration_seconds("2024-01-01T00:00:00Z", "2024-01-01T01:00:00+01:00"),
        Some(0)
    );
    assert_eq!(duration_seconds("2024-01-01T00:00:10Z", "2024-01-01T00:00:00Z"), Some(0));
    assert_eq!(duration_seconds("2024-01-01T00:00:00Z", "2024-01-01T00:01:05.9Z"), Some(65));
    assert_eq!(duration_seconds("yesterday", "2024-01-01T00:00:00Z"), None);
    assert_eq!(elapsed_seconds(0, 2_999_999_999), 2);
}

#[test]
fn the_present_can_be_read_back() {
    let now = now_iso();
    assert_eq!(duration_seconds("2020-01-01T00:00:00Z", &now).map(|n| n > 0), Some(true));
    let idle = ScanProgress::default();
    assert_eq!((idle.stage.as_str(), idle.target_sla_seconds), ("prepare", 40));
    assert_eq!(idle.message, "Waiting for scan");
    assert!(duration_seconds(&idle.started_at, &idle.updated_at).is_some());
}

#[test]
fn scan_ids_have_a_fixed_form_and_differ() {
    let first = new_scan_id();
    let second = new_scan_id();
    assert_eq!(first.len(), 36);
    assert_ne!(first, second);
    let record = ArtifactRecord::new("scan-1", "vol-c", "a.exe");
    for id in [first, second, record.id] {
        let chars: Vec<char> = id.chars().collect();
        assert_eq!(chars.len(), 36);
        for (i, c) in chars.iter().enumerate() {
            if [8, 13, 18, 23].contains(&i) {
                assert_eq!(*c, '-');
            } else {
                assert!(c.is_ascii_digit() || ('a'..='f').contains(c));
            }
        }
        assert_eq!(chars[14], '7');
        assert!("89ab".contains(chars[19]));
    }
}

#[test]
fn text_is_read_in_its_encoding() {
    assert_eq!(decode_text_excerpt(b"").as_deref(), Some(""));
    assert_eq!(decode_text_excerpt(b"plain text\n").as_deref(), Some("plain text\n"));
    let wide: Vec<u8> = "\u{feff}wide".encode_utf16().flat_map(|u| u.to_le_bytes()).collect();
    assert_eq!(text_excerpt(&wide, "UTF-16LE", true, Some("wide".to_string())).as_deref(), Some("wide"));
    let accents = "Les élèves français étaient à l'école, où ils avaient déjà mangé.";
    assert_eq!(decode_text_excerpt(accents.as_bytes()).as_deref(), Some(accents));
    let latin: Vec<u8> = accents.chars().map(|c| c as u32 as u8).collect();
    assert_eq!(decode_text_excerpt(&latin).as_deref(), Some(accents));
}

#[test]
fn zeros_and_replacements_are_no_text() {
    assert_eq!(decode_text_excerpt(&[0u8; 64]), None);
    let text = "ab\u{fffd}".to_string();
    assert_eq!(text_excerpt(b"ab?", "UTF-8", true, Some(text)), None);
    assert_eq!(text_excerpt(b"abc", "UTF-8", true, None), None);
    assert_eq!(
        text_excerpt(b"a\x01\x02", "UTF-8", false, Some("a\u{1}\u{2}".to_string())),
        None
    );
    assert_eq!(
        text_excerpt(b"abc", "UTF-8", false, Some("abc".to_string())).as_deref(),
        Some("abc")
    );
}

#[test]
fn hexadecimal_rows_hold_sixteen_bytes() {
    let bytes: Vec<u8> = (0x30u8..0x42).collect();
    let rows = build_hex_rows(0x20, &bytes);
    assert_eq!(rows.len(), 2);
    assert_eq!((rows[0].offset, rows[1].offset), (0x20, 0x30));
    assert_eq!(rows[0].ascii, "0123456789:;<=>?");
    assert_eq!(rows[1].hex, "40 41");
    assert_eq!(rows[1].ascii, "@A");
}

#[test]
fn wide_units_become_characters() {
    let units: Vec<u16> = "a\u{1f600}b".encode_utf16().collect();
    assert_eq!(decode_utf16(&units).as_deref(), Some("a\u{1f600}b"));
    assert_eq!(decode_utf16_lossy(&units), "a\u{1f600}b");
    assert_eq!(decode_utf16(&[0x61, 0xd800]), None);
    assert_eq!(decode_utf16_lossy(&[0x61, 0xd800, 0x62]), "a\u{fffd}b");
}

#[test]
fn signature_checks_are_handed_over_in_base64() {
    let path = "C:\\it's here\\a.exe";
    let script = signature_script(path);
    assert!(script.contains("-LiteralPath 'C:\\it''s here\\a.exe'"));
    let wide = utf16_le_bytes(&script);
    let command = encoded_signature_command(path);
    let back = base64::Engine::decode(&base64::engine::general_purpose::STANDARD, &command);
    assert_eq!(back.expect("the command is base64"), wide);
    assert_eq!(utf16_le_bytes("A\u{1f600}"), vec![0x41, 0, 0x3d, 0xd8, 0, 0xde]);
}

#[test]
fn replies_of_a_signature_check_are_read() {
    let reply = br#"{"Status":"Valid","StatusMessage":"Signature verified.","Subject":"CN=A","Issuer":"CN=B","Timestamp":null}"#;
    let answer = inspect_signature_from_path(true, reply, b"").expect("the reply is JSON");
    assert_eq!(answer.status, ArtifactSignatureStatus::Valid);
    assert_eq!(answer.subject.as_deref(), Some("CN=A"));
    assert_eq!(answer.issuer.as_deref(), Some("CN=B"));
    assert_eq!(answer.timestamp, None);
    assert_eq!(answer.note.as_deref(), Some("Signature verified."));
    let failed = inspect_signature_from_path(false, b"", b"  no shell \n").expect("it is told");
    assert_eq!(failed.status, ArtifactSignatureStatus::Indeterminate);
    assert_eq!(failed.note.as_deref(), Some("no shell"));
    let Err(RssError::Message(message)) = inspect_signature_from_path(true, b"oops", b"") else {
        panic!("the reply is no JSON");
    };
    assert_eq!(message, "PowerShell did not return valid JSON for Authenticode verification");
}

#[test]
fn signature_states_have_names() {
    assert_eq!(map_signature_status("Valid"), ArtifactSignatureStatus::Valid);
    assert_eq!(map_signature_status("NotSigned"), ArtifactSignatureStatus::Unsigned);
    assert_eq!(map_signature_status("HashMismatch"), ArtifactSignatureStatus::Invalid);
    assert_eq!(map_signature_status("anything"), ArtifactSignatureStatus::Indeterminate);
}

#[test]
fn only_programs_are_checked_for_signatures() {
    let text = ArtifactRecord::new("scan-1", "vol-c", "a.txt");
    let Ok(SignatureStep::Answer(answer)) = inspect_signature(&text) else {
        panic!("nothing is checked");
    };
    assert_eq!(answer.status, ArtifactSignatureStatus::NotApplicable);
    let mut program = ArtifactRecord::new("scan-1", "vol-c", "my tool.exe");
    program.id = "artifact-1".to_string();
    let Ok(SignatureStep::Check { temp_name }) = inspect_signature(&program) else {
        panic!("a copy is checked");
    };
    assert_eq!(temp_name, format!("artifact-1_{}", sanitize_temp_name("my tool.exe")));
    program.size = u64::MAX;
    assert!(inspect_signature(&program).is_err());
}
