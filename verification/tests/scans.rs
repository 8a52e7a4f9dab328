//! The course of scans and refinements, and what they report.

use files_recovery::evidence_run::{
    newest_journal_version, refine_raw_evidence, JournalReads, RefineAction, RunReads,
};
use files_recovery::model::{
    ArtifactRecord, Confidence, FileSystemKind, RawEvidenceConfig, RawEvidenceMode,
    Recoverability, RssError, ScanMode, ScanOptions, ScanSource, ScanStatus, SourceKind,
};
use files_recovery::ntfs_scan::{
    progress_record_interval, require_ntfs, result_batch_size, sort_results, NtfsScan,
};
use files_recovery::pages::{cursor_behind, page_bounds, page_offset_of, page_size_of};
use files_recovery::refinement::{
    raw_evidence_phase_from_stage, raw_evidence_stage_message, refinement_config,
};
use files_recovery::results::{
    adaptive_fast_carve_budget, collect_counters, filter_scan_results, merge_results,
};
use files_recovery::scan_course::{run_scan, ScanAction, ScanCourse, ScanEvent, ScanStage};
use files_recovery::scan_run::{
    should_carve, HitCounts, MetadataPass, ScanExecution, StageTimings,
};
use files_recovery::sources::{
    discover_sources, disk_path, file_record_number, from_wide, fs_kind, has_drive,
    is_scannable_drive, logical_volume_source, physical_disk_source, read_source_range,
    SourceRead, VolumeFacts,
};
use files_recovery::usn::{find_usn_journal_data_runs, read_usn_window, StoredStream};
use files_recovery::volume::{DataRun, VolumeBitmap};

fn source(filesystem: FileSystemKind) -> ScanSource {
    ScanSource {
        id: "vol-c".to_string(),
        kind: SourceKind::LogicalVolume,
        device_path: "\\\\.\\C:".to_string(),
        mount_point: Some("C:\\".to_string()),
        display_name: "C:".to_string(),
        volume_label: None,
        filesystem,
        volume_serial: None,
        total_bytes: 1,
        free_bytes: 1,
        cluster_size: Some(4096),
        is_system: false,
        requires_elevation: false,
    }
}

fn options(mode: ScanMode) -> ScanOptions {
    ScanOptions {
        source_id: "vol-c".to_string(),
        mode,
        include_low_confidence: false,
        carve_budget_bytes: None,
        raw_evidence: RawEvidenceConfig::default(),
    }
}

fn record(id: &str, number: Option<u64>) -> ArtifactRecord {
    let mut found = ArtifactRecord::new("scan-1", "vol-c", "a.exe");
    found.id = id.to_string();
    found.filesystem_record = number;
    found.confidence = Confidence::High;
    found.recoverability = Recoverability::Good;
    found
}

fn message(error: RssError) -> String {
    let RssError::Message(text) = error;
    text
}

fn utf16(text: &str) -> Vec<u16> {
    text.encode_utf16().chain([0, 7]).collect()
}

#[test]
fn stages_are_timed_and_warnings_are_told() {
    let mut run =
        run_scan("scan-1", &source(FileSystemKind::Ntfs), &options(ScanMode::Fast), "t0").run;
    assert_eq!(run.progress.message, "Preparing scan for C:");
    run.load_bitmap_stage(3, "t1");
    run.bitmap_unavailable("denied");
    assert_eq!(run.warnings.len(), 1);
    assert!(run.warnings[0].ends_with("Recoverability will be less precise."));
    run.enumerate_stage(4, "t2");
    assert_eq!(run.progress.stage, "enumerating_deleted_entries");
    let pass = run.metadata_pass(FileSystemKind::Ntfs);
    assert_eq!(pass, MetadataPass::MasterFileTable);
    let execution = run.finish(Vec::new(), false, 5, 20, "t3");
    assert_eq!(execution.progress.status, ScanStatus::CompletedWithWarnings);
    assert_eq!(execution.warnings.len(), 1);
}

#[test]
fn unknown_file_systems_are_only_carved() {
    let mut run =
        run_scan("scan-1", &source(FileSystemKind::Unknown), &options(ScanMode::Deep), "t0").run;
    assert_eq!(run.metadata_pass(FileSystemKind::Unknown), MetadataPass::Nothing);
    assert_eq!(
        run.warnings,
        vec!["Unknown filesystem: deleted-entry parsing skipped, falling back to carving only."
            .to_string()]
    );
    assert!(should_carve(&source(FileSystemKind::Unknown), &options(ScanMode::Deep)));
    assert_eq!(run.carve_budget(&options(ScanMode::Deep)), None);
}

#[test]
fn cancelled_scans_keep_what_they_found() {
    let mut run =
        run_scan("scan-1", &source(FileSystemKind::Ntfs), &options(ScanMode::Fast), "t0").run;
    let found = vec![record("a", Some(40))];
    let batch = run.ntfs_batch(100, &found, 0, "50", "t1");
    assert_eq!(batch.len(), 1);
    assert_eq!(run.hits.visible, 1);
    let execution = run.cancel(found, "t2");
    assert_eq!(execution.progress.status, ScanStatus::Cancelled);
    assert_eq!(execution.results.len(), 1);
}

/// Takes a scan through events; gives the stages that it came to.
fn walk(
    course: &mut ScanCourse,
    filesystem: FileSystemKind,
    mode: ScanMode,
    events: Vec<ScanEvent>,
) -> Vec<ScanStage> {
    let mut stages = Vec::new();
    for event in events {
        course.next_step(event, &source(filesystem), &options(mode), 1, "t1");
        stages.push(course.stage);
    }
    stages
}

fn course(filesystem: FileSystemKind, mode: ScanMode) -> ScanCourse {
    run_scan("scan-1", &source(filesystem), &options(mode), "t0")
}

fn ended(course: ScanCourse, filesystem: FileSystemKind, mode: ScanMode) -> ScanExecution {
    assert!(matches!(course.action(&options(mode)), ScanAction::End));
    course.end(&source(filesystem), &options(mode), 2, 9, "t2")
}

fn free_space() -> VolumeBitmap {
    VolumeBitmap { cluster_size: 4096, extents: Vec::new() }
}

#[test]
fn a_whole_ntfs_scan_goes_through_its_stages() {
    let (ntfs, fast) = (FileSystemKind::Ntfs, ScanMode::Fast);
    let mut scan = course(ntfs, fast);
    assert!(matches!(scan.action(&options(fast)), ScanAction::Report));
    let stages = walk(
        &mut scan,
        ntfs,
        fast,
        vec![
            ScanEvent::Told,
            ScanEvent::Answer { stop: false },
            ScanEvent::BitmapLoaded { bitmap: free_space() },
            ScanEvent::Told,
            ScanEvent::EntriesRead { found: vec![record("a", Some(40))], stopped: false },
            ScanEvent::Told,
            ScanEvent::Carved { found: vec![record("b", Some(41))], stopped: false },
            ScanEvent::Answer { stop: false },
        ],
    );
    assert_eq!(
        stages,
        vec![
            ScanStage::LoadingBitmap,
            ScanStage::ReadingBitmap,
            ScanStage::EnumeratingEntries,
            ScanStage::ReadingEntries(MetadataPass::MasterFileTable),
            ScanStage::CarvingFreeSpace,
            ScanStage::ReadingFreeSpace,
            ScanStage::Closing,
            ScanStage::Finished,
        ]
    );
    let execution = ended(scan, ntfs, fast);
    assert_eq!(execution.progress.status, ScanStatus::Completed);
    assert_eq!(execution.results.len(), 2);
    assert!(execution.warnings.is_empty());
    let stages: Vec<&str> =
        execution.progress.stage_timing_ms.entries.iter().map(|(name, _)| name.as_str()).collect();
    assert_eq!(
        stages,
        vec![
            "carving_high_priority",
            "enumerating_deleted_entries",
            "finalizing",
            "loading_bitmap",
            "preparing",
        ]
    );
}

#[test]
fn failed_passes_only_warn() {
    let (ntfs, deep) = (FileSystemKind::Ntfs, ScanMode::Deep);
    let mut scan = course(ntfs, deep);
    let stages = walk(
        &mut scan,
        ntfs,
        deep,
        vec![
            ScanEvent::Told,
            ScanEvent::Answer { stop: false },
            ScanEvent::BitmapFailed { error: "denied".to_string() },
            ScanEvent::Told,
            ScanEvent::EntriesFailed { error: "gone".to_string(), stopped: false },
            ScanEvent::BitmapLoaded { bitmap: free_space() },
            ScanEvent::Told,
            ScanEvent::CarveFailed { error: "torn".to_string(), stopped: false },
            ScanEvent::Answer { stop: false },
        ],
    );
    assert_eq!(stages[4], ScanStage::ReadingLateBitmap);
    assert_eq!(stages[5], ScanStage::CarvingFreeSpace);
    let execution = ended(scan, ntfs, deep);
    assert_eq!(execution.progress.status, ScanStatus::CompletedWithWarnings);
    assert_eq!(
        execution.warnings,
        vec![
            "Allocation bitmap could not be loaded: denied. Recoverability will be less precise.",
            "NTFS deleted-entry scan could not start: gone. Continuing with carving and other available sources.",
            "High-priority carve pass failed: torn. Continuing with metadata results only.",
        ]
    );
}

#[test]
fn carving_is_skipped_without_free_space() {
    let (fat, deep) = (FileSystemKind::Fat32, ScanMode::Deep);
    let mut scan = course(fat, deep);
    let stages = walk(
        &mut scan,
        fat,
        deep,
        vec![
            ScanEvent::Told,
            ScanEvent::Answer { stop: false },
            ScanEvent::Told,
            ScanEvent::EntriesRead { found: vec![record("a", None)], stopped: false },
            ScanEvent::BitmapFailed { error: "denied".to_string() },
            ScanEvent::Answer { stop: false },
        ],
    );
    assert_eq!(
        stages,
        vec![
            ScanStage::LoadingBitmap,
            ScanStage::EnumeratingEntries,
            ScanStage::ReadingEntries(MetadataPass::FatDirectories),
            ScanStage::ReadingLateBitmap,
            ScanStage::Closing,
            ScanStage::Finished,
        ]
    );
    assert_eq!(scan.run.warnings.len(), 2);
    assert!(scan.run.warnings[1].starts_with("High-priority carve pass skipped"));
    assert_eq!(ended(scan, fat, deep).results.len(), 1);

    let mut plain = course(FileSystemKind::ExFat, ScanMode::Fast);
    let events = vec![ScanEvent::Told, ScanEvent::Answer { stop: false }, ScanEvent::Told];
    let stages = walk(&mut plain, FileSystemKind::ExFat, ScanMode::Fast, events);
    assert_eq!(stages[2], ScanStage::Closing);
    assert!(plain.run.warnings[0].starts_with("exFAT metadata recovery"));
}

#[test]
fn a_stop_cancels_at_every_stage() {
    let (ntfs, fast) = (FileSystemKind::Ntfs, ScanMode::Fast);
    let start = || vec![ScanEvent::Told];
    let loaded = || {
        let mut events = start();
        events.push(ScanEvent::Answer { stop: false });
        events.push(ScanEvent::BitmapLoaded { bitmap: free_space() });
        events.push(ScanEvent::Told);
        events
    };
    let carving = || {
        let mut events = loaded();
        let found = vec![record("a", Some(40))];
        events.push(ScanEvent::EntriesRead { found, stopped: false });
        events.push(ScanEvent::Told);
        events
    };
    let closing = || {
        let mut events = carving();
        events.push(ScanEvent::Carved { found: Vec::new(), stopped: false });
        events
    };
    let stopped = true;
    let error = || "torn".to_string();
    let cases = vec![
        (start(), ScanEvent::Answer { stop: true }, 0),
        (loaded(), ScanEvent::EntriesRead { found: vec![record("a", Some(40))], stopped }, 1),
        (loaded(), ScanEvent::EntriesFailed { error: error(), stopped }, 0),
        (carving(), ScanEvent::Carved { found: vec![record("b", Some(41))], stopped }, 2),
        (carving(), ScanEvent::CarveFailed { error: error(), stopped }, 1),
        (closing(), ScanEvent::Answer { stop: true }, 1),
    ];
    for (mut events, last, count) in cases {
        let mut scan = course(ntfs, fast);
        events.push(last);
        let stages = walk(&mut scan, ntfs, fast, events);
        assert_eq!(stages.last(), Some(&ScanStage::Cancelled));
        let execution = ended(scan, ntfs, fast);
        assert_eq!(execution.progress.status, ScanStatus::Cancelled);
        assert_eq!(execution.results.len(), count);
    }
}

#[test]
fn events_of_another_stage_change_nothing() {
    let (ntfs, fast) = (FileSystemKind::Ntfs, ScanMode::Fast);
    let mut scan = course(ntfs, fast);
    let (source, options) = (source(ntfs), options(fast));
    assert!(!scan.next_step(ScanEvent::Answer { stop: true }, &source, &options, 1, "t1"));
    assert_eq!(scan.stage, ScanStage::Prepared);
    assert!(scan.next_step(ScanEvent::Told, &source, &options, 1, "t1"));
    assert!(!scan.next_step(ScanEvent::Answer { stop: false }, &source, &options, 1, "t1"));
    assert_eq!(scan.stage, ScanStage::ReadingBitmap);
}

#[test]
fn hits_add_up_over_batches() {
    let none = HitCounts::none();
    let one = none.plus(&vec![record("a", Some(40))]);
    let two = one.plus(&vec![record("b", Some(41))]);
    assert_eq!((none.visible, one.visible, two.visible), (0, 1, 2));
    assert_eq!(two.recoverable, 2);
}

#[test]
fn timings_leave_the_rest_to_the_whole() {
    let mut timings = StageTimings::new();
    timings.note_stage_completion("preparing", 30);
    timings.note_stage_completion("loading_bitmap", 20);
    assert_eq!(timings.rest_of(70), 20);
    assert_eq!(timings.rest_of(10), 0);
}

#[test]
fn timings_come_in_the_order_of_their_stages() {
    let mut timings = StageTimings::new();
    timings.note_stage_completion("preparing", 30);
    timings.note_stage_completion("loading_bitmap", 20);
    timings.note_stage_completion("raw", 5);
    timings.note_stage_completion("preparing", 40);
    let listed: Vec<(&str, u64)> =
        timings.entries.iter().map(|(stage, millis)| (stage.as_str(), *millis)).collect();
    assert_eq!(listed, vec![("loading_bitmap", 20), ("preparing", 40), ("raw", 5)]);
}

#[test]
fn late_bitmaps_refresh_the_results() {
    let run =
        run_scan("scan-1", &source(FileSystemKind::Ntfs), &options(ScanMode::Fast), "t0").run;
    let bitmap = VolumeBitmap { cluster_size: 4096, extents: Vec::new() };
    let kept = run.late_bitmap(FileSystemKind::Ntfs, &bitmap, vec![record("a", Some(40))]);
    assert_eq!(kept.len(), 1);
}

#[test]
fn merging_keeps_results_and_adds_no_second_record() {
    let merged = merge_results(
        vec![record("a", Some(40))],
        vec![record("b", Some(40)), record("c", Some(41))],
    );
    assert!(merged.iter().any(|r| r.id == "a"));
    assert!(!merged.iter().any(|r| r.id == "b"));
    assert!(merged.iter().any(|r| r.id == "c"));
}

#[test]
fn merging_leaves_no_two_results_of_one_path_or_place() {
    let at = |id: &str, path: Option<&str>, offset: Option<u64>| {
        let mut found = record(id, None);
        found.original_path = path.map(str::to_string);
        found.raw_offset = offset;
        found
    };
    let merged = merge_results(
        vec![at("a", Some("C:\\Docs\\a.exe"), Some(4096))],
        vec![
            at("b", Some("c:/docs/A.EXE"), None),
            at("c", Some("C:\\Docs\\c.exe"), Some(4096)),
            at("d", None, Some(8192)),
            at("e", None, Some(8192)),
            at("f", Some("C:\\Docs\\f.exe"), Some(12288)),
        ],
    );
    let ids: Vec<&str> = merged.iter().map(|r| r.id.as_str()).collect();
    assert_eq!(ids, vec!["a", "d", "f"]);
}

#[test]
fn weak_results_are_hidden_unless_asked_for() {
    let mut weak = record("w", None);
    weak.name = "x.zzz".to_string();
    weak.extension = Some("zzz".to_string());
    weak.confidence = Confidence::Low;
    weak.recoverability = Recoverability::Poor;
    let shown = filter_scan_results(vec![record("a", None)], false);
    assert_eq!(shown.len(), 1);
    assert_eq!(filter_scan_results(vec![weak], true).len(), 1);
    let counters = collect_counters(&shown);
    assert_eq!((counters.total_results, counters.executable_results), (1, 1));
}

#[test]
fn fast_budgets_follow_what_was_found() {
    assert_eq!(adaptive_fast_carve_budget(0, 9, 9, 9), 0);
    assert_eq!(adaptive_fast_carve_budget(800, 10_000, 5_000, 3_000), 600);
    assert_eq!(adaptive_fast_carve_budget(800, 1_000, 100, 0), 800);
    assert_eq!(adaptive_fast_carve_budget(800, 10, 10, 0), 700);
}

#[test]
fn records_are_reported_in_batches() {
    assert!(require_ntfs(&source(FileSystemKind::Ntfs)).is_ok());
    assert!(require_ntfs(&source(FileSystemKind::Fat32)).is_err());
    let mut scan = NtfsScan::new(ScanMode::Fast, 100);
    let interval = progress_record_interval(ScanMode::Fast);
    assert!(interval > 0 && result_batch_size(ScanMode::Fast) > 0);
    let _ = scan.scan_deleted_entries(24, Some(record("a", Some(24))), false);
    let report = scan.last_report();
    assert_eq!(report.map(|r| (r.found, r.new_from)), Some((1, 0)));
    assert_eq!(scan.found().len(), 1);
    assert_eq!(scan.finish().len(), 1);
}

#[test]
fn better_results_come_first() {
    let mut low = record("low", None);
    low.priority_score = 1;
    let mut high = record("high", None);
    high.priority_score = 900;
    let sorted = sort_results(vec![low, high]);
    assert_eq!(sorted[0].id, "high");
}

#[test]
fn refinements_come_to_their_end() {
    let config = refinement_config();
    assert_eq!(config.mode, RawEvidenceMode::FullExhaustive);
    let mut run = refine_raw_evidence(&source(FileSystemKind::Ntfs), &config, 30, Vec::new())
        .expect("the source is NTFS")
        .expect("evidence is wanted");
    let mut stages = Vec::new();
    let mut steps = 0;
    loop {
        steps += 1;
        assert!(steps < 20, "the refinement comes to its end");
        match run.action(4) {
            RefineAction::Report(report) => {
                stages.push(report.percent);
                run.answer(true);
            }
            RefineAction::CollectEntries => run.entries_collected(2, false),
            RefineAction::CollectJournal => run.journal_collected(Some("no journal"), false),
            RefineAction::CollectRawJournal => run.raw_journal_collected(None),
            RefineAction::Finish { completed, last_report } => {
                assert!(completed);
                assert_eq!(last_report.map(|r| (r.percent, r.processed_units)), Some((100, 4)));
                break;
            }
        }
    }
    assert_eq!(stages, vec![5, 18, 25, 55, 58, 82, 90]);
    assert_eq!(run.warnings().len(), 1);
}

#[test]
fn refinements_stop_when_told() {
    let mut run = refine_raw_evidence(
        &source(FileSystemKind::Ntfs),
        &refinement_config(),
        30,
        Vec::new(),
    )
    .expect("the source is NTFS")
    .expect("evidence is wanted");
    run.answer(false);
    assert!(matches!(run.action(0), RefineAction::Finish { completed: false, last_report: None }));
    let none =
        refine_raw_evidence(&source(FileSystemKind::Ntfs), &RawEvidenceConfig::default(), 30, Vec::new());
    assert!(none.expect("the source is NTFS").is_none());
    let other = refine_raw_evidence(
        &source(FileSystemKind::Fat32),
        &refinement_config(),
        30,
        Vec::new(),
    );
    assert_eq!(message(other.err().expect("it is FAT")), "C: is not an NTFS source");
}

#[test]
fn index_runs_are_read_in_whole_records() {
    let runs = vec![
        DataRun::Sparse { length: 8192 },
        DataRun::Data { lcn: 40960, length: 8192 },
    ];
    let mut reads = RunReads::of_index(runs, 4096);
    let mut total = 0;
    while let Some((offset, length)) = reads.next_read() {
        assert!(offset >= 40960 && offset + length as u64 <= 49152);
        assert_eq!(length % 4096, 0);
        total += length;
        reads.supplied();
    }
    assert_eq!(total, 8192);
}

#[test]
fn journals_are_read_onwards() {
    let mut reads = JournalReads::new(100, 300);
    assert_eq!(reads.next_read(), Some(100));
    let records = reads.supply(&200i64.to_le_bytes());
    assert!(records.is_empty());
    let _ = reads.supply(&100i64.to_le_bytes());
    assert_eq!(reads.next_read(), None);
    assert_eq!((newest_journal_version(2), newest_journal_version(4)), (2, 3));
    let (found, carry) = read_usn_window(Vec::new(), &[0u8; 64]);
    assert!(found.is_empty() && carry.len() <= 64);
}

#[test]
fn the_journal_is_a_named_stream() {
    let stream = StoredStream { attribute: vec![0u8; 8], runs: None };
    assert_eq!(find_usn_journal_data_runs("$UsnJrnl", &vec![stream]), None);
    assert_eq!(find_usn_journal_data_runs("other", &Vec::new()), None);
}

#[test]
fn refinement_stages_have_messages() {
    assert_eq!(raw_evidence_stage_message("reading_usn"), "Reading NTFS USN Journal evidence");
    assert_eq!(raw_evidence_stage_message("else"), "Refining paths from NTFS raw evidence");
    assert_ne!(
        raw_evidence_phase_from_stage("done"),
        raw_evidence_phase_from_stage("merging_evidence")
    );
}

#[test]
fn pages_follow_each_other() {
    assert_eq!(page_offset_of(&Some("40".to_string())), 40);
    assert_eq!(page_offset_of(&Some("x".to_string())), 0);
    let size = page_size_of(Some(10));
    assert_eq!(page_bounds(25, 20, size), (20, 25));
    assert_eq!(cursor_behind(20, 25).as_deref(), Some("20"));
    assert_eq!(cursor_behind(25, 25), None);
}

#[test]
fn volumes_and_disks_become_sources() {
    let facts = VolumeFacts {
        letter: 'C',
        volume_name: utf16("System"),
        filesystem_name: utf16("NTFS"),
        serial: 7,
        total_bytes: 100,
        free_bytes: 40,
        sectors_per_cluster: 8,
        bytes_per_sector: 512,
    };
    let volume = logical_volume_source(&facts, true, Some("C:\\"));
    assert_eq!(volume.id, "volume:C");
    assert_eq!(volume.device_path, "\\\\.\\C:");
    assert_eq!(volume.display_name, "C:\\ System (NTFS)");
    assert_eq!((volume.filesystem, volume.cluster_size), (FileSystemKind::Ntfs, Some(4096)));
    let disk = physical_disk_source(1, 500, false);
    assert_eq!((disk.id.as_str(), disk.total_bytes), ("disk:1", 500));
    assert_eq!(disk_path(1), "\\\\.\\PhysicalDrive1");
    let all = discover_sources(vec![volume], vec![disk]);
    assert_eq!(all.len(), 2);
    assert_eq!(all[0].id, "volume:C");
    assert_eq!(from_wide(&utf16("abc")), "abc");
    assert_eq!(fs_kind("exFAT"), FileSystemKind::ExFat);
    assert!(has_drive(0b100, 2) && !has_drive(0b100, 1));
    assert!(is_scannable_drive(3) && !is_scannable_drive(4));
    assert_eq!(file_record_number(0xffff_0001, 2), 0x1_0000_0002);
}

#[test]
fn unreadable_files_are_read_by_their_record() {
    let ntfs = source(FileSystemKind::Ntfs);
    assert!(matches!(read_source_range(&ntfs, "C:\\a", 5, None), Ok(SourceRead::FromRecord)));
    let fat = source(FileSystemKind::Fat32);
    assert_eq!(
        message(read_source_range(&fat, "C:\\a", 5, None).err().expect("it is locked")),
        "Unable to open C:\\a"
    );
    let Ok(SourceRead::Bytes(bytes)) = read_source_range(&fat, "C:\\a", 2, Some(b"ab".to_vec()))
    else {
        panic!("the bytes were read");
    };
    assert_eq!(bytes, b"ab".to_vec());
}
