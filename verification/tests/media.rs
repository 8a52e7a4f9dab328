//! FAT directories, free space, aligned reads and carving.

use files_recovery::carver::{
    candidate_read_length, candidate_warning, carve_candidate, carve_high_priority, chunk_warning,
    device_warning, estimate_candidate, extension_for_kind,
};
use files_recovery::fat::{
    cluster_offset, fat_entry, is_cluster_free, read_boot_sector, read_chain, short_name, FatStep,
    FatWalk,
};
use files_recovery::model::{
    ArtifactKind, ByteRun, FileSystemKind, Recoverability, RecoveryPlan, RssError, ScanSource,
    SourceKind,
};
use files_recovery::volume::{
    best_ntfs_data_stream, bitmap_cluster_size, device_alignment, next_bitmap_query,
    plan_read, read_bytes, read_ntfs_record_range_for_source, resident_window, DataAttribute,
    FreeSpaceScan, NtfsDataStream, NtfsRangePlan, NtfsRecordContent,
};

fn source(filesystem: FileSystemKind) -> ScanSource {
    ScanSource {
        id: "vol-e".to_string(),
        kind: SourceKind::LogicalVolume,
        device_path: "\\\\.\\E:".to_string(),
        mount_point: Some("E:\\".to_string()),
        display_name: "E:".to_string(),
        volume_label: None,
        filesystem,
        volume_serial: None,
        total_bytes: 1 << 20,
        free_bytes: 1 << 19,
        cluster_size: None,
        is_system: false,
        requires_elevation: false,
    }
}

fn boot_sector() -> Vec<u8> {
    let mut boot = vec![0u8; 512];
    boot[11..13].copy_from_slice(&512u16.to_le_bytes());
    boot[13] = 1;
    boot[14..16].copy_from_slice(&1u16.to_le_bytes());
    boot[16] = 1;
    boot[36..40].copy_from_slice(&1u32.to_le_bytes());
    boot[44..48].copy_from_slice(&2u32.to_le_bytes());
    boot
}

fn directory_entry(name: &[u8; 11], attributes: u8, cluster: u16, size: u32) -> Vec<u8> {
    let mut entry = vec![0u8; 32];
    entry[..11].copy_from_slice(name);
    entry[11] = attributes;
    entry[26..28].copy_from_slice(&cluster.to_le_bytes());
    entry[28..32].copy_from_slice(&size.to_le_bytes());
    entry
}

fn fat_table(entries: &[(usize, u32)]) -> Vec<u8> {
    let mut fat = vec![0u8; 512];
    for (cluster, next) in entries {
        fat[cluster * 4..cluster * 4 + 4].copy_from_slice(&next.to_le_bytes());
    }
    fat
}

fn message(error: RssError) -> String {
    let RssError::Message(text) = error;
    text
}

#[test]
fn boot_sectors_tell_the_layout() {
    let layout = read_boot_sector(&source(FileSystemKind::Fat32), &boot_sector())
        .expect("the volume is FAT32");
    assert_eq!((layout.root_cluster, layout.fat_offset, layout.fat_length), (2, 512, 512));
    assert_eq!((layout.data_offset, layout.cluster_size), (1024, 512));
    assert_eq!(cluster_offset(&layout, 5), 1024 + 3 * 512);
}

#[test]
fn other_file_systems_are_refused() {
    let error = read_boot_sector(&source(FileSystemKind::Ntfs), &boot_sector());
    assert_eq!(message(error.expect_err("it is NTFS")), "E: is not FAT32");
    let mut old = boot_sector();
    old[17] = 64;
    let error = read_boot_sector(&source(FileSystemKind::Fat32), &old);
    assert_eq!(
        message(error.expect_err("it has a fixed root directory")),
        "Only FAT32 volumes are supported in this release"
    );
}

#[test]
fn chains_end_where_they_repeat() {
    let fat = fat_table(&[(2, 3), (3, 4), (4, 3), (7, 0x0fff_ffff)]);
    assert_eq!(read_chain(&fat, 2), vec![2, 3, 4]);
    assert_eq!(read_chain(&fat, 7), vec![7]);
    assert_eq!(fat_entry(&fat, 3), Some(4));
    assert_eq!(fat_entry(&fat, 9999), None);
    assert!(is_cluster_free(&fat, 6) && !is_cluster_free(&fat, 2));
}

#[test]
fn short_names_lose_their_first_letter_when_deleted() {
    assert_eq!(short_name(b"README  TXT"), "README.TXT");
    assert_eq!(short_name(b"\xe5EADME  TXT"), "_EADME.TXT");
    assert_eq!(short_name(b"NOEXT      "), "NOEXT");
}

#[test]
fn deleted_files_are_found_in_directories() {
    let source = source(FileSystemKind::Fat32);
    let layout = read_boot_sector(&source, &boot_sector()).expect("the volume is FAT32");
    let fat = fat_table(&[(2, 0x0fff_ffff), (3, 0x0fff_ffff)]);
    let (mut walk, first) = FatWalk::new("scan-1", &source, layout, fat);
    assert_eq!(first, vec![2]);
    let mut root = directory_entry(b"\xe5LD     TXT", 0x20, 5, 600);
    root.extend(directory_entry(b"SUB        ", 0x10, 3, 0));
    root.extend(directory_entry(b"LIVE    TXT", 0x20, 9, 5));
    root.resize(512, 0);
    walk.supply(root);
    assert!(matches!(walk.scan_directory(), FatStep::Found));
    let FatStep::Read { clusters } = walk.scan_directory() else {
        panic!("the directory is read");
    };
    assert_eq!(clusters, vec![3]);
    let mut sub = directory_entry(b"\xe5EEP    BIN", 0x20, 9, 10);
    sub.extend(directory_entry(b"SUB        ", 0x10, 3, 0));
    sub.resize(512, 0);
    walk.supply(sub);
    let mut steps = 0;
    while !matches!(walk.scan_directory(), FatStep::Done) {
        steps += 1;
        assert!(steps < 20, "the walk comes to its end");
    }
    let found = walk.scan_deleted_entries();
    assert_eq!(found.len(), 2);
    let old = found.iter().find(|r| r.name == "_LD.TXT").expect("the file was found");
    assert_eq!(old.original_path.as_deref(), Some("E:\\_LD.TXT"));
    assert_eq!(old.size, 600);
    let RecoveryPlan::RawRuns { runs, logical_size, .. } = &old.recovery_plan else {
        panic!("its clusters are free");
    };
    assert_eq!(*logical_size, 600);
    assert_eq!(runs[0].offset, 1024 + 3 * 512);
    let deep = found.iter().find(|r| r.name == "_EEP.BIN").expect("the file was found");
    assert_eq!(deep.original_path.as_deref(), Some("E:\\SUB\\_EEP.BIN"));
    assert_ne!(deep.recoverability, Recoverability::Unknown);
}

#[test]
fn free_clusters_become_extents() {
    let mut scan = FreeSpaceScan::new();
    scan.feed(0, &[0xff, 0x00, 0b1111_1100]);
    scan.feed(24, &[0b0000_1110]);
    let bitmap = scan.finish(4096);
    let extents: Vec<(u64, u64)> =
        bitmap.extents.iter().map(|e| (e.offset / 4096, e.length / 4096)).collect();
    assert_eq!(extents, vec![(8, 10), (24, 1), (28, 4)]);
    assert!(bitmap.covers_range(8 * 4096, 10 * 4096));
    assert!(!bitmap.covers_range(8 * 4096, 10 * 4096 + 1));
}

#[test]
fn bitmaps_in_pieces_give_the_same_maximal_extents() {
    let bits = [0b0001_1000, 0x00, 0xff, 0b0111_1111, 0b1111_1110];
    let extents = |pieces: &[&[u8]]| -> Vec<(u64, u64)> {
        let mut scan = FreeSpaceScan::new();
        let mut base = 16;
        for piece in pieces {
            scan.feed(base, piece);
            base += 8 * piece.len() as u64;
        }
        scan.finish(512).extents.iter().map(|e| (e.offset / 512, e.length / 512)).collect()
    };
    let whole = extents(&[&bits]);
    assert_eq!(whole, vec![(16, 3), (21, 11), (47, 2)]);
    assert_eq!(extents(&[&bits[..2], &bits[2..]]), whole);
    assert_eq!(extents(&[&bits[..1], &[], &bits[1..4], &bits[4..]]), whole);
    let free = |c: u64| {
        let i = (c - 16) as usize;
        bits[i / 8] & (1 << (i % 8)) == 0
    };
    for (first, count) in &whole {
        assert!((*first..first + count).all(free));
        assert!(*first == 16 || !free(first - 1));
        assert!(first + count == 56 || !free(first + count));
    }
}

#[test]
fn ranges_are_free_where_all_their_clusters_are() {
    let mut scan = FreeSpaceScan::new();
    scan.feed(0, &[0b0001_1000]);
    let bitmap = scan.finish(512);
    for offset in 0..4096u64 {
        for length in [1, 511, 512, 513, 1536] {
            let touched = offset / 512..=(offset + length - 1) / 512;
            let free = touched.into_iter().all(|c| c < 8 && c != 3 && c != 4);
            assert_eq!(bitmap.covers_range(offset, length), free);
        }
    }
}

#[test]
fn bitmaps_are_asked_for_part_by_part() {
    assert_eq!(next_bitmap_query(16, 4, true), Some(48));
    assert_eq!(next_bitmap_query(16, 4, false), None);
    assert_eq!(next_bitmap_query(u64::MAX, 4, true), Some(u64::MAX));
    assert_eq!(
        message(bitmap_cluster_size(&source(FileSystemKind::Ntfs)).expect_err("it is not known")),
        "Cluster size is unknown for E:"
    );
}

#[test]
fn devices_are_read_in_whole_blocks() {
    assert_eq!(device_alignment("\\\\.\\C:"), 4096);
    assert_eq!(device_alignment("C:\\image.dd"), 1);
    let plan = plan_read(4096, 5000, 100);
    assert_eq!((plan.aligned_offset, plan.prefix, plan.aligned_length), (4096, 904, 4096));
    let buffer: Vec<u8> = (0..4096u32).map(|i| i as u8).collect();
    let bytes = read_bytes(&plan, &buffer, 4096, 100, "E:").expect("all was read");
    assert_eq!(bytes, buffer[904..1004].to_vec());
    assert_eq!(
        message(read_bytes(&plan, &buffer, 950, 100, "E:").expect_err("too little was read")),
        "Failed to read 100 bytes from E:: requested window extends past available data"
    );
}

#[test]
fn records_are_read_from_their_data() {
    assert_eq!(
        message(read_ntfs_record_range_for_source(&None, 7, 0, 4).err().expect("no record")),
        "NTFS record 7 is unavailable"
    );
    let folder = Some(NtfsRecordContent { is_directory: true, data: None });
    assert!(read_ntfs_record_range_for_source(&folder, 7, 0, 4).is_err());
    let empty = Some(NtfsRecordContent { is_directory: false, data: None });
    assert_eq!(
        message(read_ntfs_record_range_for_source(&empty, 7, 0, 4).err().expect("no data")),
        "NTFS record 7 has no readable $DATA attribute"
    );
    let resident = Some(NtfsRecordContent {
        is_directory: false,
        data: Some(NtfsDataStream::Resident(b"abcdef".to_vec())),
    });
    let Ok(NtfsRangePlan::Ready(bytes)) = read_ntfs_record_range_for_source(&resident, 7, 2, 3)
    else {
        panic!("the bytes are at hand");
    };
    assert_eq!(bytes, b"cde".to_vec());
    assert_eq!(resident_window(&b"abc".to_vec(), 2, 9), b"c".to_vec());
    assert_eq!(resident_window(&b"abc".to_vec(), 9, 9), Vec::<u8>::new());
}

#[test]
fn unnamed_data_comes_before_named() {
    let stream = |bytes: &[u8]| Some(NtfsDataStream::Resident(bytes.to_vec()));
    let attributes = vec![
        DataAttribute { named: true, size: 90, stream: stream(b"other") },
        DataAttribute { named: false, size: 0, stream: None },
        DataAttribute { named: false, size: 5, stream: stream(b"plain") },
    ];
    assert_eq!(best_ntfs_data_stream(&attributes), Some(2));
    assert_eq!(best_ntfs_data_stream(&Vec::new()), None);
}

#[test]
fn marks_are_found_once_and_inside_the_chunk() {
    let extents = vec![ByteRun { offset: 0, length: 1 << 20, sparse: false }];
    let mut pass = carve_high_priority(&extents, Some(4096), None);
    let chunk = pass.next_chunk().expect("there is something to read");
    assert_eq!(chunk.offset, 0);
    let mut bytes = vec![0u8; chunk.read_length as usize];
    bytes[512..520].copy_from_slice(b"%PDF-1.7");
    bytes[4096..4104].copy_from_slice(b"\x89PNG\r\n\x1a\n");
    let hits = pass.chunk_hits(&chunk, &bytes);
    let found: Vec<(ArtifactKind, u64)> = hits.iter().map(|h| (h.kind, h.offset)).collect();
    assert!(found.contains(&(ArtifactKind::Pdf, 512)));
    assert!(pass.chunk_hits(&chunk, &bytes).is_empty());
    pass.complete_chunk();
    assert!(pass.scanned() > 0 && pass.scanned() <= pass.budget());
}

#[test]
fn carved_files_keep_their_estimate() {
    let mut pdf = b"%PDF-1.7\n1 0 obj\n<<>>\nendobj\n".to_vec();
    pdf.extend([b' '; 200]);
    pdf.extend(b"%%EOF\n");
    let estimate = estimate_candidate(ArtifactKind::Pdf, &pdf).expect("the end is there");
    assert_eq!(estimate.kind, ArtifactKind::Pdf);
    assert!(estimate.exact && estimate.length <= pdf.len() as u64);
    let extents = vec![ByteRun { offset: 4096, length: 1 << 16, sparse: false }];
    let record = carve_candidate(
        "scan-1",
        &source(FileSystemKind::Ntfs),
        ArtifactKind::Pdf,
        4096,
        4096 + (1 << 16),
        &extents,
        &pdf,
    )
    .expect("the candidate is whole");
    assert_eq!(record.name, "carved_0000000000001000.pdf");
    assert_eq!(record.raw_offset, Some(4096));
    assert_eq!(record.size, estimate.length);
    assert_eq!(extension_for_kind(ArtifactKind::Pdf), "pdf");
    assert!(candidate_read_length(ArtifactKind::Pdf, 10, 10).is_none());
}

#[test]
fn carving_tells_what_could_not_be_read() {
    assert!(device_warning("gone").contains("gone"));
    assert!(chunk_warning(0x1000, "E:", "bad").contains("0x1000"));
    assert!(candidate_warning(0x2000, "E:", "bad").contains("E:"));
}

#[test]
fn every_sixteenth_file_orders_the_list() {
    let source = source(FileSystemKind::Fat32);
    let layout = read_boot_sector(&source, &boot_sector()).expect("the volume is FAT32");
    let fat = fat_table(&[(2, 0x0fff_ffff)]);
    let (mut walk, _) = FatWalk::new("scan-1", &source, layout, fat);
    let mut root = Vec::new();
    for i in 0..17u8 {
        let ext: &[u8; 3] = if i % 2 == 0 { b"TXT" } else { b"EXE" };
        let mut name = *b"\xe5ILE_A     ";
        name[5] = b'A' + i;
        name[8..].copy_from_slice(ext);
        root.extend(directory_entry(&name, 0x20, 5, 10));
    }
    root.resize(1024, 0);
    walk.supply(root);
    for _ in 0..15 {
        assert!(matches!(walk.scan_directory(), FatStep::Found));
        assert!(!walk.report_due());
    }
    let names = |walk: &FatWalk| -> Vec<String> {
        walk.found().iter().map(|record| record.name.clone()).collect()
    };
    assert_eq!(names(&walk)[0], "_ILE_A.TXT");
    assert!(matches!(walk.scan_directory(), FatStep::Found));
    assert!(walk.report_due());
    let listed = names(&walk);
    assert_eq!((listed[0].as_str(), listed[7].as_str()), ("_ILE_B.EXE", "_ILE_P.EXE"));
    assert_eq!((listed[8].as_str(), listed[15].as_str()), ("_ILE_A.TXT", "_ILE_O.TXT"));
    assert!(matches!(walk.scan_directory(), FatStep::Found));
    assert_eq!(names(&walk)[16], "_ILE_Q.TXT");
    let shown = walk.scan_deleted_entries();
    assert_eq!(shown[7].name, "_ILE_P.EXE");
    assert_eq!(shown[16].name, "_ILE_Q.TXT");
}
