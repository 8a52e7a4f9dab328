//! What kind of file a name and its first bytes stand for.

use files_recovery::clock::duration_seconds;
use files_recovery::kinds::{infer_artifact_kind, infer_artifact_kind_from_bytes};
use files_recovery::model::{ArtifactKind, RawEvidenceConfig, RawEvidenceMode, ScanStatus};


#[test]
fn infers_artifact_kind_from_common_signatures() {
    assert_eq!(
        infer_artifact_kind("carved.bin", Some(b"%PDF-1.7\n")),
        ArtifactKind::Pdf
    );
    assert_eq!(
        infer_artifact_kind("carved.bin", Some(b"\x89PNG\r\n\x1A\nrest")),
        ArtifactKind::Png
    );
    assert_eq!(
        infer_artifact_kind("carved.bin", Some(b"\xFF\xD8\xFF\xE0\x00\x10JFIF")),
        ArtifactKind::Jpg
    );
    assert_eq!(
        infer_artifact_kind("carved.bin", Some(b"GIF89a")),
        ArtifactKind::Gif
    );
    assert_eq!(
        infer_artifact_kind("carved.bin", Some(b"SQLite format 3\0")),
        ArtifactKind::Sqlite
    );
}

#[test]
fn prefers_specific_signature_over_generic_extension() {
    assert_eq!(
        infer_artifact_kind("unknown.bin", Some(b"%PDF-1.4\n")),
        ArtifactKind::Pdf
    );
    assert_eq!(
        infer_artifact_kind("unknown.dat", Some(b"\x89PNG\r\n\x1A\n")),
        ArtifactKind::Png
    );
}

#[test]
fn infers_kind_from_extension_before_signature() {
    let kind = infer_artifact_kind("payload.dll", Some(b"MZ\x90\x00"));
    assert_eq!(kind, ArtifactKind::Dll);
}

#[test]
fn raw_evidence_default_is_manual_and_disabled() {
    let config = RawEvidenceConfig::default();
    assert_eq!(config.mode, RawEvidenceMode::ManualDeep);
    assert!(!config.i30_enabled);
    assert!(!config.usn_enabled);
    assert!(!config.raw_usn_fallback);
    assert!(config.emit_initial_results_before_raw);
}

#[test]
fn infers_kind_from_signature_when_extension_missing() {
    let kind = infer_artifact_kind("artifact", Some(b"PK\x03\x04\x14\x00\x00\x00"));
    assert_eq!(kind, ArtifactKind::Zip);
}

#[test]
fn infers_dll_from_pe_characteristics_when_extension_missing() {
    let mut bytes = vec![0u8; 256];
    bytes[0..2].copy_from_slice(b"MZ");
    bytes[0x3C..0x40].copy_from_slice(&(0x80u32).to_le_bytes());
    bytes[0x80..0x84].copy_from_slice(b"PE\0\0");
    bytes[0x96..0x98].copy_from_slice(&(0x2000u16).to_le_bytes());

    let kind = infer_artifact_kind("payload", Some(&bytes));
    assert_eq!(kind, ArtifactKind::Dll);
}

#[test]
fn infers_msi_from_ole_stream_names() {
    let mut bytes = vec![0u8; 512];
    bytes[0..8].copy_from_slice(b"\xD0\xCF\x11\xE0\xA1\xB1\x1A\xE1");
    let encoded = "!_StringPool"
        .encode_utf16()
        .flat_map(u16::to_le_bytes)
        .collect::<Vec<_>>();
    bytes[128..128 + encoded.len()].copy_from_slice(&encoded);

    let kind = infer_artifact_kind("installer.bin", Some(&bytes));
    assert_eq!(kind, ArtifactKind::Msi);
}

#[test]
fn infers_jar_from_zip_signature_and_manifest() {
    let mut bytes = b"PK\x03\x04".to_vec();
    bytes.extend_from_slice(b"META-INF/MANIFEST.MF");
    let kind = infer_artifact_kind("artifact", Some(&bytes));
    assert_eq!(kind, ArtifactKind::Jar);
}

#[test]
fn infers_iso_from_primary_volume_descriptor() {
    let mut bytes = vec![0u8; 0x8008];
    bytes[0x8000] = 1;
    bytes[0x8001..0x8006].copy_from_slice(b"CD001");

    let kind = infer_artifact_kind("disk_image.bin", Some(&bytes));
    assert_eq!(kind, ArtifactKind::Iso);
}

#[test]
fn infers_gzip_from_signature() {
    let kind = infer_artifact_kind("payload.bin", Some(b"\x1F\x8B\x08\x00"));
    assert_eq!(kind, ArtifactKind::Gzip);
}

#[test]
fn infers_bzip2_from_signature() {
    let kind = infer_artifact_kind("payload.bin", Some(b"BZh91AY&SY"));
    assert_eq!(kind, ArtifactKind::Bzip2);
}

#[test]
fn infers_xz_from_signature() {
    let kind = infer_artifact_kind("payload.bin", Some(b"\xFD7zXZ\x00\x00"));
    assert_eq!(kind, ArtifactKind::Xz);
}

#[test]
fn infers_tar_from_ustar_signature() {
    let mut bytes = vec![0u8; 1024];
    bytes[0x101..0x107].copy_from_slice(b"ustar\0");
    bytes[148..156].copy_from_slice(b"0000000 ");
    let kind = infer_artifact_kind("payload.bin", Some(&bytes));
    assert_eq!(kind, ArtifactKind::Tar);
}

#[test]
fn infers_kind_from_bytes_without_extension_bias() {
    let kind = infer_artifact_kind_from_bytes(b"MZ\x90\x00");
    assert_eq!(kind, ArtifactKind::Pe);
}

#[test]
fn infers_json_from_textual_signature() {
    let kind = infer_artifact_kind("payload.bin", Some(br#"{ "ok": true, "items": [1, 2] }"#));
    assert_eq!(kind, ArtifactKind::Json);
}

#[test]
fn infers_powershell_from_shebang_text() {
    let kind = infer_artifact_kind("payload", Some(b"#!powershell\nWrite-Host 'ok'\n"));
    assert_eq!(kind, ArtifactKind::Ps1);
}

#[test]
fn infers_ini_from_textual_signature() {
    let kind = infer_artifact_kind("payload.bin", Some(b"[general]\nmode=fast\nname=files\n"));
    assert_eq!(kind, ArtifactKind::Ini);
}

#[test]
fn archives_are_rar_by_their_names_alone() {
    let bytes = b"Rar!\x1A\x07\x00\x00\x01\x02\x03";
    assert_ne!(infer_artifact_kind_from_bytes(bytes), ArtifactKind::Rar);
    assert_ne!(infer_artifact_kind("data", Some(bytes)), ArtifactKind::Rar);
    assert_eq!(infer_artifact_kind("data.rar", Some(bytes)), ArtifactKind::Rar);
    assert_eq!(infer_artifact_kind("data.rar", None), ArtifactKind::Rar);
}

#[test]
fn computes_duration_in_seconds() {
    let duration = duration_seconds("2026-03-10T10:00:00Z", "2026-03-10T10:01:45Z");
    assert_eq!(duration, Some(105));
}

#[test]
fn completed_with_warnings_is_terminal_success() {
    assert!(ScanStatus::CompletedWithWarnings.is_terminal());
    assert!(ScanStatus::CompletedWithWarnings.is_success());
    assert!(!ScanStatus::Failed.is_success());
}
