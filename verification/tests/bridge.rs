//! Scans, jobs, catalogs and preview sessions over their life.

use files_recovery::archive::PreviewArchiveListing;
use files_recovery::bridge::BridgeState;
use files_recovery::bridge_browse::BrowseStep;
use files_recovery::bridge_jobs::Work;
use files_recovery::bridge_scans::ScanOutcome;
use files_recovery::browse_cache::build_deleted_browse_cache;
use files_recovery::cases::{ensure_elevated, security_context, CaseStore};
use files_recovery::catalog::{CatalogCacheState, CatalogPhase, CatalogProgress};
use files_recovery::catalog_status::{classify_catalog_error, end_of_load};
use files_recovery::jobs::Job;
use files_recovery::model::{
    ArchivePreviewEntry, ArchivePreviewEntryStatus, ArtifactPreviewMode, ArtifactRecord,
    AsyncJobState, BrowseSourceRequest, ContentTarget, FileSystemKind, OriginType,
    RawEvidenceConfig, RawEvidenceRefinementPhase, RawEvidenceRefinementRequest, RawEvidenceState,
    RecoveryRequest, RssError, ScanMode, ScanOptions, ScanSource, ScanStatus, SourceCatalogState,
    SourceKind,
};
use files_recovery::preview_session::{PreparedPreviewSession, PreviewSessionTarget};
use files_recovery::refinement::RefineOutcome;
use files_recovery::scan_course::run_scan;
use files_recovery::scan_run::ScanExecution;

fn source(id: &str) -> ScanSource {
    ScanSource {
        id: id.to_string(),
        kind: SourceKind::LogicalVolume,
        device_path: "\\\\.\\C:".to_string(),
        mount_point: Some("C:\\".to_string()),
        display_name: "C:".to_string(),
        volume_label: None,
        filesystem: FileSystemKind::Ntfs,
        volume_serial: None,
        total_bytes: 1,
        free_bytes: 1,
        cluster_size: Some(4096),
        is_system: false,
        requires_elevation: false,
    }
}

fn options(id: &str) -> ScanOptions {
    ScanOptions {
        source_id: id.to_string(),
        mode: ScanMode::Fast,
        include_low_confidence: true,
        carve_budget_bytes: None,
        raw_evidence: RawEvidenceConfig::default(),
    }
}

fn record(id: &str, path: Option<&str>) -> ArtifactRecord {
    let mut found = ArtifactRecord::new("scan-1", "vol-c", "a.txt");
    found.id = id.to_string();
    found.original_path = path.map(str::to_string);
    found.deleted_entry = true;
    found.origin_type = OriginType::FilesystemDeletedEntry;
    found
}

fn state() -> BridgeState {
    BridgeState::new("1.2.3", "eula.txt", vec![source("vol-c")], true, "t0")
}

fn execution(results: Vec<ArtifactRecord>) -> ScanExecution {
    let run = run_scan("scan-1", &source("vol-c"), &options("vol-c"), "t1").run;
    run.finish(results, false, 5, 9, "t2")
}

fn message(error: RssError) -> String {
    let RssError::Message(text) = error;
    text
}

fn finished_scan() -> BridgeState {
    let mut bridge = state();
    bridge.start_scan(options("vol-c"), "scan-1", "t1").expect("the source is known");
    bridge
        .complete_scan("scan-1", execution(vec![record("a", Some("C:\\x\\a.txt"))]))
        .expect("the scan is known");
    bridge
}

#[test]
fn the_start_tells_of_the_app_and_its_sources() {
    let bridge = state();
    let info = bridge.bootstrap();
    assert_eq!(info.app_name, "Files");
    assert_eq!(info.app_version, "1.2.3");
    assert!(info.is_elevated);
    assert_eq!(info.source_count, 1);
    assert_eq!(bridge.list_sources().len(), 1);
    assert_eq!(bridge.find_source("vol-c").expect("the source is known").id, "vol-c");
    assert_eq!(
        message(bridge.find_source("vol-x").expect_err("no such source")),
        "Unknown source id vol-x"
    );
}

#[test]
fn listing_sources_anew_keeps_what_is_known() {
    let mut bridge = state();
    bridge.load_source_catalog("vol-c", false, "load-1", "t1").expect("the source is known");
    let fresh = bridge.refresh_sources(vec![source("vol-c"), source("vol-d")], "t2");
    assert_eq!(fresh.len(), 2);
    assert_eq!(bridge.source_catalog_status("vol-c", "t3").state, SourceCatalogState::Loading);
    assert_eq!(bridge.source_catalog_status("vol-d", "t3").state, SourceCatalogState::Unloaded);
}

#[test]
fn catalogs_load_and_become_ready() {
    let mut bridge = state();
    bridge.load_source_catalog("vol-c", true, "load-1", "t1").expect("the source is known");
    let progress = CatalogProgress {
        phase: CatalogPhase::EnumeratingFiles,
        indexed_entries: 7,
        total_estimated_entries: Some(9),
        cache_state: CatalogCacheState::Rebuild,
    };
    let status = bridge.emit_catalog_progress("vol-c", "load-1", &progress, "t2");
    assert_eq!((status.indexed_entries, status.started_at.as_deref()), (7, Some("t1")));
    assert!(!bridge.catalog_is_ready("vol-c"));
    let over =
        bridge.finish_catalog_load("vol-c", "load-1", SourceCatalogState::Ready, None, "t3");
    assert_eq!((over.indexed_entries, over.started_at.as_deref()), (7, Some("t1")));
    assert!(bridge.catalog_is_ready("vol-c"));
}

#[test]
fn catalog_loads_can_be_cancelled() {
    let mut bridge = state();
    bridge.load_source_catalog("vol-c", false, "load-1", "t1").expect("the source is known");
    assert!(!bridge.is_load_cancelled("load-1"));
    bridge.cancel_source_load("load-1").expect("the load is known");
    assert!(bridge.is_load_cancelled("load-1"));
    assert_eq!(
        message(bridge.cancel_source_load("load-9").expect_err("no such load")),
        "Source load load-9 not found"
    );
}

#[test]
fn catalog_errors_come_with_codes() {
    let code = |text: &str| classify_catalog_error(Some(text)).0.unwrap_or_default();
    assert_eq!(code("UNIQUE constraint failed: entries"), "sqlite_unique");
    assert_eq!(code("catalog_not_ready"), "catalog_not_ready");
    assert_eq!(code("load cancelled"), "cancelled");
    assert_eq!(code("only mounted logical volumes"), "unsupported_source");
    assert_eq!(code("disk full"), "load_failed");
    assert_eq!(classify_catalog_error(None), (None, None));
    assert_eq!(end_of_load(None).0, SourceCatalogState::Ready);
    assert_eq!(end_of_load(Some("disk full".to_string())).0, SourceCatalogState::Failed);
}

#[test]
fn scans_start_only_on_known_sources() {
    let mut bridge = state();
    let error = bridge.start_scan(options("vol-x"), "scan-1", "t1").expect_err("no such source");
    assert_eq!(message(error), "Unknown source id vol-x");
    let (found, progress) =
        bridge.start_scan(options("vol-c"), "scan-1", "t1").expect("the source is known");
    assert_eq!(found.id, "vol-c");
    assert_eq!(progress.status, ScanStatus::Running);
    assert_eq!(progress.message, "Queued scan for C:");
    assert_eq!(progress.target_sla_seconds, 120);
    assert_eq!(
        message(bridge.scan_progress("scan-9").expect_err("no such scan")),
        "Scan scan-9 not found"
    );
}

#[test]
fn results_come_once() {
    let mut bridge = state();
    bridge.start_scan(options("vol-c"), "scan-1", "t1").expect("the source is known");
    bridge.update_results("scan-1", &vec![record("a", None), record("b", None)]);
    bridge.update_results("scan-1", &vec![record("b", None), record("c", None)]);
    let results = bridge.scan_results("scan-1").expect("the scan is known");
    let ids: Vec<&str> = results.iter().map(|r| r.id.as_str()).collect();
    assert_eq!(ids, vec!["a", "b", "c"]);
    assert_eq!(bridge.artifact_details("scan-1", "b").expect("it was found").id, "b");
    assert_eq!(
        message(bridge.artifact_details("scan-1", "z").expect_err("it was not found")),
        "Artifact z was not found in scan scan-1"
    );
}

#[test]
fn stopped_scans_are_asked_to_end() {
    let mut bridge = state();
    bridge.start_scan(options("vol-c"), "scan-1", "t1").expect("the source is known");
    bridge.stop_scan("scan-1", "t2").expect("the scan is known");
    assert!(bridge.is_cancel_requested("scan-1"));
    let progress = bridge.scan_progress("scan-1").expect("the scan is known");
    assert_eq!(progress.message, "Stopping scan after the current read batch");
    assert!(bridge.stop_scan("scan-9", "t2").is_err());
}

#[test]
fn ended_scans_are_not_stopped() {
    let mut bridge = finished_scan();
    bridge.stop_scan("scan-1", "t9").expect("the scan is known");
    assert!(!bridge.is_cancel_requested("scan-1"));
    assert_ne!(bridge.scan_progress("scan-1").expect("the scan is known").updated_at, "t9");
}

#[test]
fn completed_scans_have_a_snapshot() {
    let bridge = finished_scan();
    let snapshot = bridge.scan_snapshot("scan-1").expect("the scan is over");
    assert_eq!(snapshot.summary.scan_id, "scan-1");
    assert_eq!(snapshot.summary.counters.total_results, 1);
    assert_eq!(snapshot.results.len(), 1);
    assert!(state().scan_snapshot("scan-1").is_err());
}

#[test]
fn scans_that_ran_end_with_a_snapshot_to_keep() {
    let mut bridge = state();
    bridge.start_scan(options("vol-c"), "scan-1", "t1").expect("the source is known");
    let outcome = ScanOutcome::Ran(execution(vec![record("a", Some("C:\\x\\a.txt"))]));
    let completion = bridge.end_scan("scan-1", outcome, "t9").expect("the scan is known");
    let snapshot = completion.snapshot;
    assert_eq!(snapshot.summary.scan_id, "scan-1");
    assert_eq!(snapshot.summary.finished_at.as_deref(), Some("t2"));
    assert_eq!(snapshot.summary.counters.total_results, 1);
    assert_eq!(snapshot.source.id, "vol-c");
    assert_eq!(snapshot.progress.status, ScanStatus::Completed);
    assert!(snapshot.results.is_empty());
    assert_eq!(completion.locators.len(), 1);
}

#[test]
fn broken_scans_end_with_a_warning() {
    let mut bridge = state();
    bridge.start_scan(options("vol-c"), "scan-1", "t1").expect("the source is known");
    bridge.update_results("scan-1", &vec![record("a", None)]);
    let outcome = ScanOutcome::Failed { error: "read error".to_string() };
    assert!(bridge.end_scan("scan-1", outcome, "t2").is_none());
    let progress = bridge.scan_progress("scan-1").expect("the scan is known");
    assert_eq!(progress.status, ScanStatus::CompletedWithWarnings);
    assert_eq!(bridge.scan_results("scan-1").expect("the scan is known").len(), 1);
    bridge.start_scan(options("vol-c"), "scan-2", "t1").expect("the source is known");
    assert!(bridge.end_scan("scan-2", ScanOutcome::Panicked, "t2").is_none());
    let warned = bridge.scan_snapshot("scan-2").expect("the scan is over").summary.warnings;
    assert!(warned.iter().any(|w| w.contains("Scan worker panicked while reading disk")));
}

#[test]
fn recovery_asks_for_known_artifacts() {
    let bridge = finished_scan();
    let mut request = RecoveryRequest {
        scan_id: "scan-1".to_string(),
        artifact_ids: vec!["a".to_string(), "z".to_string()],
        destination: "D:\\".to_string(),
    };
    assert_eq!(bridge.recover(&request).expect("one is known").len(), 1);
    request.artifact_ids = vec!["z".to_string()];
    assert_eq!(
        message(bridge.recover(&request).expect_err("none is known")),
        "No matching artifacts selected for recovery"
    );
}

#[test]
fn finished_scans_can_be_browsed() {
    let mut bridge = finished_scan();
    assert!(bridge.latest_deleted_browse_scan_id("vol-c").is_none());
    let completion = vec![record("a", Some("C:\\x\\a.txt"))];
    let locators = files_recovery::browse_cache::collect_deleted_artifact_locators(&completion);
    let cache = build_deleted_browse_cache(&source("vol-c"), &locators);
    bridge.store_deleted_browse_cache("scan-1", cache);
    assert_eq!(bridge.latest_deleted_browse_scan_id("vol-c").as_deref(), Some("scan-1"));
    let request = BrowseSourceRequest {
        source_id: "vol-c".to_string(),
        path: None,
        cursor: None,
        deleted_cursor: None,
        limit: None,
        directories_only: None,
        filter: None,
        sort_key: None,
        sort_direction: None,
    };
    let plan = bridge.plan_browse(&request).expect("the source is known");
    assert_eq!(plan.scan_id.as_deref(), Some("scan-1"));
    assert!(matches!(plan.step, BrowseStep::FromFolder));
}

#[test]
fn only_finished_ntfs_scans_are_refined() {
    let request = RawEvidenceRefinementRequest {
        scan_id: "scan-1".to_string(),
        source_id: "vol-c".to_string(),
        scope: None,
    };
    let mut running = state();
    running.start_scan(options("vol-c"), "scan-1", "t1").expect("the source is known");
    let error = running.start_raw_evidence_refinement(&request, "job-1", "t2");
    assert_eq!(
        message(error.err().expect("it still runs")),
        "Raw evidence refinement requires a completed scan"
    );
    let mut bridge = finished_scan();
    let input = bridge
        .start_raw_evidence_refinement(&request, "job-1", "t3")
        .expect("the scan is over");
    assert_eq!(input.results.len(), 1);
    let again = bridge.start_raw_evidence_refinement(&request, "job-2", "t4");
    assert_eq!(
        message(again.err().expect("one at a time")),
        "Raw evidence refinement is already running for this scan"
    );
    let other = RawEvidenceRefinementRequest { source_id: "vol-d".to_string(), ..request };
    assert_eq!(
        message(bridge.start_raw_evidence_refinement(&other, "job-3", "t5").err().expect("not his")),
        "Scan scan-1 belongs to source vol-c, not vol-d"
    );
}

#[test]
fn refinements_report_and_end() {
    let request = RawEvidenceRefinementRequest {
        scan_id: "scan-1".to_string(),
        source_id: "vol-c".to_string(),
        scope: None,
    };
    let mut bridge = finished_scan();
    let input =
        bridge.start_raw_evidence_refinement(&request, "job-1", "t3").expect("the scan is over");
    assert!(bridge.report_refinement_stage("job-1", "parsing_i30", 3, Some(9), "t4"));
    let progress = bridge.raw_evidence_progress("job-1").expect("the job is known");
    assert_eq!(progress.phase, RawEvidenceRefinementPhase::ParsingI30);
    assert_eq!(progress.message, "Parsing NTFS $I30 directory evidence");
    let outcome = RefineOutcome::Ran { completed: true };
    let locators = bridge.end_raw_evidence_refinement(
        "job-1",
        "scan-1",
        outcome,
        input.results,
        Vec::new(),
        "t5",
    );
    assert_eq!(locators.map(|l| l.len()), Some(1));
    let scan = bridge.scan_progress("scan-1").expect("the scan is known");
    assert_eq!(scan.raw_evidence_state, RawEvidenceState::Completed);
    assert_eq!(
        bridge.raw_evidence_progress("job-1").expect("the job is known").state,
        AsyncJobState::Completed
    );
}

#[test]
fn cancelled_refinements_keep_the_results() {
    let request = RawEvidenceRefinementRequest {
        scan_id: "scan-1".to_string(),
        source_id: "vol-c".to_string(),
        scope: None,
    };
    let mut bridge = finished_scan();
    bridge.start_raw_evidence_refinement(&request, "job-1", "t3").expect("the scan is over");
    bridge.cancel_raw_evidence_refinement("job-1", "t4").expect("the job is known");
    assert!(bridge.is_refinement_cancelled("job-1"));
    let locators = bridge.end_raw_evidence_refinement(
        "job-1",
        "scan-1",
        RefineOutcome::Ran { completed: false },
        Vec::new(),
        Vec::new(),
        "t5",
    );
    assert!(locators.is_none());
    assert_eq!(bridge.scan_results("scan-1").expect("the scan is known").len(), 1);
    let scan = bridge.scan_progress("scan-1").expect("the scan is known");
    assert_eq!(scan.raw_evidence_state, RawEvidenceState::NotStarted);
}

#[test]
fn jobs_answer_what_their_work_gave() {
    let mut bridge = state();
    bridge.start_preview_job("job-1", "t1");
    assert_eq!(
        bridge.preview_job_status("job-1").expect("the job is known").state,
        AsyncJobState::Pending
    );
    assert!(bridge.preview_job_result("job-1").is_err());
    bridge.set_preview_job_state("job-1", AsyncJobState::Running, None, "t2");
    let failed = Work::Ran(Err(RssError::Message("no bytes".to_string())));
    bridge.finish_preview_job("job-1", failed, "t3");
    let status = bridge.preview_job_status("job-1").expect("the job is known");
    assert_eq!((status.state, status.error.as_deref()), (AsyncJobState::Failed, Some("no bytes")));
    bridge.start_entry_details_job("job-2", "t1");
    bridge.finish_entry_details_job("job-2", Work::Panicked, "t2");
    assert_eq!(
        bridge.entry_details_job_status("job-2").expect("the job is known").error.as_deref(),
        Some("Entry details job panicked while reading metadata")
    );
    assert!(bridge.cancel_preview_job("job-9", "t4").is_err());
}

#[test]
fn cancelled_jobs_stay_cancelled() {
    let mut job: Job<u32> = Job::new("job-1", "t1");
    job.request_cancel("t2");
    job.finish(Ok(5), "t3");
    assert_eq!(job.status.state, AsyncJobState::Cancelled);
    assert!(job.answer("Preview", "job-1").is_err());
    let mut done: Job<u32> = Job::new("job-2", "t1");
    done.finish(Ok(5), "t2");
    assert_eq!(done.answer("Preview", "job-2").ok(), Some(&5));
    done.request_cancel("t3");
    assert_eq!(done.answer("Preview", "job-2").ok(), Some(&5));
}

#[test]
fn preview_sessions_page_through_their_listing() {
    let mut bridge = state();
    let entries = (0..3)
        .map(|i| ArchivePreviewEntry {
            path: format!("member-{i}"),
            kind: None,
            size: None,
            compressed_size: None,
            status: ArchivePreviewEntryStatus::Intact,
            note: None,
        })
        .collect();
    let prepared = PreparedPreviewSession {
        target_key: "artifact-1".to_string(),
        requested_mode: ArtifactPreviewMode::Auto,
        resolved_mode: ArtifactPreviewMode::Archive,
        total_size: 100,
        summary: Vec::new(),
        warnings: Vec::new(),
        archive_listing: Some(PreviewArchiveListing {
            entries,
            total_entries: Some(3),
            truncated: false,
        }),
    };
    let target = PreviewSessionTarget::Artifact(record("artifact-1", None));
    let info = bridge.open_preview_session(prepared, target, "session-1");
    assert_eq!((info.session_id.as_str(), info.archive_entry_count), ("session-1", Some(3)));
    let page = bridge.read_archive_page("session-1", 2, 2).expect("the session is open");
    assert_eq!(page.entries.len(), 1);
    assert_eq!(page.entries[0].path, "member-2");
    assert!(!page.has_more);
    assert_eq!(bridge.preview_chunk_range("session-1", 0, 10).expect("it is open"), None);
    let chunk = bridge.read_preview_chunk("session-1", 0, 10, Ok(Vec::new())).expect("it is open");
    assert_eq!((chunk.offset, chunk.has_more), (0, false));
    assert!(bridge.preview_chunk_range("session-2", 0, 10).is_err());
    bridge.close_preview_session("session-1");
    assert_eq!(
        message(bridge.read_archive_page("session-1", 0, 2).expect_err("it was closed")),
        "Preview session session-1 not found"
    );
}

#[test]
fn content_is_looked_up_by_its_target() {
    let bridge = finished_scan();
    let target = ContentTarget::Artifact {
        scan_id: "scan-1".to_string(),
        artifact_id: "a".to_string(),
    };
    assert!(bridge.content_subject(&target, &None).is_ok());
    let unknown =
        ContentTarget::Entry { source_id: "vol-x".to_string(), path: "C:\\a".to_string() };
    assert_eq!(
        message(bridge.content_subject(&unknown, &None).err().expect("no such source")),
        "Unknown source id vol-x"
    );
}

#[test]
fn cases_are_kept_by_scan() {
    let bridge = finished_scan();
    let store = CaseStore::new("D:\\cases");
    let snapshot = bridge.scan_snapshot("scan-1").expect("the scan is over");
    assert_eq!(store.save_snapshot(&snapshot), "scan-1.json");
    assert!(store.holds_case(Some("json")));
    assert!(!store.holds_case(Some("txt")) && !store.holds_case(None));
    assert_eq!(store.list_snapshots(vec![Some(snapshot), None]).len(), 1);
}

#[test]
fn raw_access_needs_elevation() {
    assert!(security_context(Ok(true)).expect("the state is known").is_elevated);
    assert!(ensure_elevated(Ok(true)).is_ok());
    assert_eq!(
        message(ensure_elevated(Ok(false)).expect_err("it is not elevated")),
        "Administrator privileges are required for raw volume access."
    );
    assert_eq!(
        message(ensure_elevated(Err("denied".to_string())).expect_err("nobody knows")),
        "Failed to query elevation state: denied"
    );
}
