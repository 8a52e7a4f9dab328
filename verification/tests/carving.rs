//! Carving: segments, runs and sizes.

use files_recovery::carver::{
    build_carve_runs, build_scan_segments, PRIORITY_EXTENT_SLICE, PRIORITY_HEAD_SLICE,
};
use files_recovery::model::ByteRun;
use files_recovery::sizes::{
    estimate_gif_size, estimate_jpeg_size, estimate_pdf_size, estimate_png_size, estimate_rar_size,
};


#[test]
fn build_scan_segments_spreads_budget_across_multiple_extents_first() {
    let extents = vec![
        ByteRun {
            offset: 0x0000,
            length: 4 * PRIORITY_EXTENT_SLICE,
            sparse: false,
        },
        ByteRun {
            offset: 0x8000_0000,
            length: 2 * PRIORITY_EXTENT_SLICE,
            sparse: false,
        },
    ];

    let segments = build_scan_segments(&extents);

    assert!(segments.len() >= 4);
    assert_eq!(segments[0].offset, 0x0000);
    assert_eq!(segments[0].length, PRIORITY_HEAD_SLICE);
    assert_eq!(segments[1].offset, 0x8000_0000);
    assert_eq!(segments[1].length, PRIORITY_HEAD_SLICE);
    assert_eq!(
        segments[2].offset,
        (4 * PRIORITY_EXTENT_SLICE) - (PRIORITY_EXTENT_SLICE - PRIORITY_HEAD_SLICE)
    );
    assert_eq!(
        segments[3].offset,
        (2 * PRIORITY_EXTENT_SLICE) + 0x8000_0000
            - (PRIORITY_EXTENT_SLICE - PRIORITY_HEAD_SLICE)
    );
}

#[test]
fn build_carve_runs_starts_from_containing_extent() {
    let extents = vec![
        ByteRun {
            offset: 0x1000,
            length: 0x1000,
            sparse: false,
        },
        ByteRun {
            offset: 0x4000,
            length: 0x2000,
            sparse: false,
        },
        ByteRun {
            offset: 0x6000,
            length: 0x1000,
            sparse: false,
        },
    ];

    let runs = build_carve_runs(0x4800, 0x1800, &extents);

    assert_eq!(runs.len(), 1);
    assert_eq!(runs[0].offset, 0x4800);
    assert_eq!(runs[0].length, 0x1800);
    assert!(!runs[0].sparse);
}

#[test]
fn estimate_pdf_size_uses_eof_marker() {
    let bytes = b"%PDF-1.7\n1 0 obj\n<<>>\nendobj\n%%EOF\n";
    assert_eq!(estimate_pdf_size(bytes), Some(bytes.len() as u64));
}

#[test]
fn estimate_png_size_walks_chunks_until_iend() {
    let bytes = [
        b"\x89PNG\r\n\x1A\n".as_slice(),
        b"\x00\x00\x00\x0DIHDR",
        b"\x00\x00\x00\x01\x00\x00\x00\x01\x08\x02\x00\x00\x00",
        b"\x00\x00\x00\x00",
        b"\x00\x00\x00\x00IEND",
        b"\xAE\x42\x60\x82",
    ]
    .concat();
    assert_eq!(estimate_png_size(&bytes), Some(bytes.len() as u64));
}

#[test]
fn estimate_gif_size_finds_trailer() {
    let bytes = [
        b"GIF89a".as_slice(),
        b"\x01\x00\x01\x00\x80\x00\x00",
        b"\x00\x00\x00\xFF\xFF\xFF",
        b"\x2C\x00\x00\x00\x00\x01\x00\x01\x00\x00",
        b"\x02\x02\x4C\x01\x00",
        b"\x3B",
    ]
    .concat();
    assert_eq!(estimate_gif_size(&bytes), Some(bytes.len() as u64));
}

#[test]
fn estimate_rar4_size_uses_footer_when_present() {
    let mut bytes = b"Rar!\x1A\x07\x00header".to_vec();
    bytes.extend_from_slice(&[0xc4, 0x3d, 0x7b, 0x00, 0x40, 0x07, 0x00]);
    assert_eq!(estimate_rar_size(&bytes), Some((bytes.len() as u64, true)));
}

#[test]
fn estimate_rar5_size_uses_footer_when_present() {
    let mut bytes = b"Rar!\x1A\x07\x01\x00payload".to_vec();
    bytes.extend_from_slice(&[0x1d, 0x77, 0x56, 0x51, 0x03, 0x05, 0x04, 0x00]);
    assert_eq!(estimate_rar_size(&bytes), Some((bytes.len() as u64, true)));
}

#[test]
fn estimate_jpeg_size_finds_eoi() {
    let bytes = [
        b"\xFF\xD8\xFF\xE0\x00\x10JFIF\x00\x01\x02\x00\x00\x01\x00\x01\x00\x00".as_slice(),
        b"\xFF\xDB\x00\x04\x00\x00",
        b"\xFF\xC0\x00\x11\x08\x00\x01\x00\x01\x03\x01\x11\x00\x02\x11\x00\x03\x11\x00",
        b"\xFF\xDA\x00\x08\x01\x01\x00\x00\x3F\x00",
        b"\x00\x11\x22\x33\x44",
        b"\xFF\xD9",
    ]
    .concat();
    assert_eq!(estimate_jpeg_size(&bytes), Some(bytes.len() as u64));
}
