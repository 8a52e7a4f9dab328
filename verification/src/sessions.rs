//! Scan sessions: what is known of a scan from the moment it is queued until it is closed.

use crate::browse_cache::{
    candidate_indices, collect_deleted_artifact_locators, locates, DeletedArtifactLocator,
    DeletedBrowseCache,
};
use crate::clock::{duration_seconds, rfc3339_nanos, seconds_between};
use crate::model::{
    ArtifactRecord, FileSystemKind, ScanCounters, ScanMode, ScanOptions, ScanPhase, ScanSource,
    ScanStatus, ScanSummary,
};
use crate::records::{lemma_same_view, record_views, ArtifactView};
use crate::results::{collect_counters, counters_of};
use crate::scan_run::{first_progress, ProgressView, ScanExecution, ScanProgress, StageTimings};
use crate::text::{clone_strings, concat2, contains_string, opt_view, owned, push_unique, views};
use vstd::hash_set::StringHashSet;
use vstd::prelude::*;
use vstd::string::*;

verus! {

// ---------------------------------------------------------------------------
// Copies of what a session reports.

impl Clone for StageTimings {
    fn clone(&self) -> (r: Self)
        ensures
            r@ == self@,
    {
        let mut entries: Vec<(String, u64)> = Vec::new();
        let mut i: usize = 0;
        while i < self.entries.len()
            invariant
                i <= self.entries@.len(),
                entries@ == self.entries@.subrange(0, i as int),
            decreases self.entries@.len() - i,
        {
            let e = &self.entries[i];
            entries.push((e.0.clone(), e.1));
            assert(entries@ =~= self.entries@.subrange(0, i + 1));
            i += 1;
        }
        assert(entries@ =~= self.entries@);
        StageTimings { entries }
    }
}

impl Clone for ScanProgress {
    fn clone(&self) -> (r: Self)
        ensures
            r@ == self@,
    {
        ScanProgress {
            scan_id: self.scan_id.clone(),
            status: self.status,
            phase: self.phase,
            stage: self.stage.clone(),
            files_examined: self.files_examined,
            artifacts_found: self.artifacts_found,
            records_scanned: self.records_scanned,
            candidates_surfaced: self.candidates_surfaced,
            validated_hits: self.validated_hits,
            named_hits: self.named_hits,
            carved_hits: self.carved_hits,
            fragment_hits: self.fragment_hits,
            verified_hits: self.verified_hits,
            recoverable_hits: self.recoverable_hits,
            bytes_scanned: self.bytes_scanned,
            eta_seconds: self.eta_seconds,
            target_sla_seconds: self.target_sla_seconds,
            raw_evidence_state: self.raw_evidence_state,
            message: self.message.clone(),
            stage_timing_ms: self.stage_timing_ms.clone(),
            started_at: self.started_at.clone(),
            last_progress_at: self.last_progress_at.clone(),
            updated_at: self.updated_at.clone(),
        }
    }
}

/// A copy of a list of records.
pub fn clone_records(list: &Vec<ArtifactRecord>) -> (r: Vec<ArtifactRecord>)
    ensures
        record_views(r@) == record_views(list@),
{
    let mut out: Vec<ArtifactRecord> = Vec::new();
    let mut i: usize = 0;
    while i < list.len()
        invariant
            i <= list@.len(),
            record_views(out@) == record_views(list@).subrange(0, i as int),
        decreases list@.len() - i,
    {
        let copy = list[i].clone();
        proof {
            lemma_same_view(list@[i as int], copy);
        }
        let ghost before = record_views(out@);
        out.push(copy);
        assert(record_views(out@) =~= before.push(copy@));
        assert(record_views(out@) =~= record_views(list@).subrange(0, i + 1));
        i += 1;
    }
    assert(record_views(out@) =~= record_views(list@));
    out
}

/// What a summary says.
#[verifier::ext_equal]
pub ghost struct SummaryView {
    pub scan_id: Seq<char>,
    pub source_id: Seq<char>,
    pub source_name: Seq<char>,
    pub mode: ScanMode,
    pub filesystem: FileSystemKind,
    pub status: ScanStatus,
    pub started_at: Seq<char>,
    pub finished_at: Option<Seq<char>>,
    pub duration_seconds: Option<u64>,
    pub warnings: Seq<Seq<char>>,
    pub counters: ScanCounters,
}

impl View for ScanSummary {
    type V = SummaryView;

    open spec fn view(&self) -> SummaryView {
        SummaryView {
            scan_id: self.scan_id@,
            source_id: self.source_id@,
            source_name: self.source_name@,
            mode: self.mode,
            filesystem: self.filesystem,
            status: self.status,
            started_at: self.started_at@,
            finished_at: opt_view(self.finished_at),
            duration_seconds: self.duration_seconds,
            warnings: views(self.warnings@),
            counters: self.counters,
        }
    }
}

pub open spec fn summary_opt(s: Option<ScanSummary>) -> Option<SummaryView> {
    match s {
        Some(summary) => Some(summary@),
        None => None,
    }
}

/// How long a scan took, where both of its times can be read.
pub open spec fn duration_of(started_at: Seq<char>, finished_at: Seq<char>) -> Option<u64> {
    match (rfc3339_nanos(started_at), rfc3339_nanos(finished_at)) {
        (Some(start), Some(end)) => Some(seconds_between(start, end) as u64),
        _ => None,
    }
}

/// The summary of a scan, with the source, the options, the progress and the warnings that it
/// has at its end.
pub open spec fn summary_of(
    scan_id: Seq<char>,
    source: ScanSource,
    options: ScanOptions,
    progress: ProgressView,
    warnings: Seq<Seq<char>>,
    counters: ScanCounters,
) -> SummaryView {
    SummaryView {
        scan_id,
        source_id: source.id@,
        source_name: source.display_name@,
        mode: options.mode,
        filesystem: source.filesystem,
        status: progress.status,
        started_at: progress.started_at,
        finished_at: Some(progress.updated_at),
        duration_seconds: duration_of(progress.started_at, progress.updated_at),
        warnings,
        counters,
    }
}

fn build_summary(
    scan_id: &str,
    source: &ScanSource,
    options: &ScanOptions,
    progress: &ScanProgress,
    warnings: &Vec<String>,
    counters: ScanCounters,
) -> (r: ScanSummary)
    ensures
        r@ == summary_of(
            scan_id@,
            *source,
            *options,
            progress@,
            views(warnings@),
            counters,
        ),
{
    let said = clone_strings(warnings);
    assert(views(said@) =~= views(warnings@));
    ScanSummary {
        scan_id: owned(scan_id),
        source_id: source.id.clone(),
        source_name: source.display_name.clone(),
        mode: options.mode,
        filesystem: source.filesystem,
        status: progress.status,
        started_at: progress.started_at.clone(),
        finished_at: Some(progress.updated_at.clone()),
        duration_seconds: duration_seconds(
            progress.started_at.as_str(),
            progress.updated_at.as_str(),
        ),
        warnings: said,
        counters,
    }
}

/// A scan as it is kept: its summary, its source, its progress and its results.
#[derive(Debug)]
pub struct ScanSnapshot {
    pub summary: ScanSummary,
    pub source: ScanSource,
    pub progress: ScanProgress,
    pub results: Vec<ArtifactRecord>,
}

/// What a snapshot says.
#[verifier::ext_equal]
pub ghost struct SnapshotView {
    pub summary: SummaryView,
    pub source: ScanSource,
    pub progress: ProgressView,
    pub results: Seq<ArtifactView>,
}

impl View for ScanSnapshot {
    type V = SnapshotView;

    open spec fn view(&self) -> SnapshotView {
        SnapshotView {
            summary: self.summary@,
            source: self.source,
            progress: self.progress@,
            results: record_views(self.results@),
        }
    }
}

// ---------------------------------------------------------------------------
// Sessions.

/// What is known of a scan.
pub struct ScanSession {
    pub source: ScanSource,
    pub options: ScanOptions,
    pub progress: ScanProgress,
    pub results: Vec<ArtifactRecord>,
    pub deleted_browse_cache: Option<DeletedBrowseCache>,
    pub result_ids: StringHashSet,
    pub warnings: Vec<String>,
    pub summary: Option<ScanSummary>,
    pub cancel_requested: bool,
}

/// What a session holds.
#[verifier::ext_equal]
pub ghost struct ScanView {
    pub source: ScanSource,
    pub options: ScanOptions,
    pub progress: ProgressView,
    pub results: Seq<ArtifactView>,
    pub cache: Option<DeletedBrowseCache>,
    pub ids: Set<Seq<char>>,
    pub warnings: Seq<Seq<char>>,
    pub summary: Option<SummaryView>,
    pub cancel_requested: bool,
}

impl View for ScanSession {
    type V = ScanView;

    open spec fn view(&self) -> ScanView {
        ScanView {
            source: self.source,
            options: self.options,
            progress: self.progress@,
            results: record_views(self.results@),
            cache: self.deleted_browse_cache,
            ids: self.result_ids@,
            warnings: views(self.warnings@),
            summary: summary_opt(self.summary),
            cancel_requested: self.cancel_requested,
        }
    }
}

/// The ids of records.
pub open spec fn ids_of(records: Seq<ArtifactView>) -> Set<Seq<char>>
    decreases records.len(),
{
    if records.len() == 0 {
        Set::empty()
    } else {
        ids_of(records.drop_last()).insert(records.last().id)
    }
}

pub proof fn lemma_ids_of(records: Seq<ArtifactView>, id: Seq<char>)
    ensures
        ids_of(records).contains(id) <==> exists|i: int|
            0 <= i < records.len() && (#[trigger] records[i]).id == id,
    decreases records.len(),
{
    if records.len() > 0 {
        let front = records.drop_last();
        lemma_ids_of(front, id);
        if ids_of(front).contains(id) {
            let i = choose|i: int| 0 <= i < front.len() && (#[trigger] front[i]).id == id;
            assert(records[i].id == id);
        }
        if records.last().id == id {
            assert(records[records.len() - 1].id == id);
        }
        if exists|i: int| 0 <= i < records.len() && (#[trigger] records[i]).id == id {
            let i = choose|i: int| 0 <= i < records.len() && (#[trigger] records[i]).id == id;
            if i < front.len() {
                assert(front[i].id == id);
            }
        }
    }
}

/// The ids of records.
pub fn collect_ids(records: &Vec<ArtifactRecord>) -> (r: StringHashSet)
    ensures
        r@ == ids_of(record_views(records@)),
{
    let mut ids = StringHashSet::new();
    let ghost all = record_views(records@);
    let mut i: usize = 0;
    assert(all.subrange(0, 0) =~= seq![]);
    while i < records.len()
        invariant
            i <= records@.len(),
            all == record_views(records@),
            ids@ == ids_of(all.subrange(0, i as int)),
        decreases records@.len() - i,
    {
        assert(all.subrange(0, i + 1).drop_last() =~= all.subrange(0, i as int));
        assert(all[i as int] == records@[i as int]@);
        ids.insert(records[i].id.clone());
        i += 1;
    }
    assert(all.subrange(0, i as int) =~= all);
    ids
}

/// The session of a scan that waits to start.
pub open spec fn queued_session(
    scan_id: Seq<char>,
    source: ScanSource,
    options: ScanOptions,
    now: Seq<char>,
) -> ScanView {
    ScanView {
        source,
        options,
        progress: first_progress(
            scan_id,
            options.mode,
            "queued"@,
            "Queued scan for "@ + source.display_name@,
            now,
        ),
        results: seq![],
        cache: None,
        ids: Set::empty(),
        warnings: seq![],
        summary: None,
        cancel_requested: false,
    }
}

/// The session after a batch of results: those whose id is new join the results.
pub open spec fn with_batch(s: ScanView, batch: Seq<ArtifactView>) -> ScanView
    decreases batch.len(),
{
    if batch.len() == 0 {
        s
    } else {
        let before = with_batch(s, batch.drop_last());
        if before.ids.contains(batch.last().id) {
            before
        } else {
            ScanView {
                results: before.results.push(batch.last()),
                ids: before.ids.insert(batch.last().id),
                ..before
            }
        }
    }
}

/// The session of a scan that is asked to stop.
pub open spec fn stopped(s: ScanView, now: Seq<char>) -> ScanView {
    if s.progress.status.spec_is_terminal() {
        s
    } else {
        ScanView {
            cancel_requested: true,
            progress: ProgressView {
                message: "Stopping scan after the current read batch"@,
                updated_at: now,
                ..s.progress
            },
            ..s
        }
    }
}

/// The status at the end of a scan: any warning shows in it.
pub open spec fn final_status(status: ScanStatus, warnings: Seq<Seq<char>>) -> ScanStatus {
    if warnings.len() == 0 {
        status
    } else {
        ScanStatus::CompletedWithWarnings
    }
}

/// The session of a scan that came to its end.
pub open spec fn completed(
    s: ScanView,
    scan_id: Seq<char>,
    progress: ProgressView,
    results: Seq<ArtifactView>,
    warnings: Seq<Seq<char>>,
    counters: ScanCounters,
) -> ScanView {
    let last = ProgressView { status: final_status(progress.status, warnings), ..progress };
    ScanView {
        progress: last,
        results,
        cache: None,
        ids: ids_of(results),
        warnings,
        summary: Some(summary_of(scan_id, s.source, s.options, last, warnings, counters)),
        cancel_requested: false,
        ..s
    }
}

/// The progress of a scan that broke off.
pub open spec fn broken_off_progress(p: ProgressView, reason: Seq<char>, now: Seq<char>) -> ProgressView {
    ProgressView {
        status: ScanStatus::CompletedWithWarnings,
        message: reason,
        phase: ScanPhase::Finalizing,
        stage: "finalizing"@,
        eta_seconds: Some(0),
        updated_at: now,
        ..p
    }
}

/// The session of a scan that broke off: what was found so far stays.
pub open spec fn broken_off(s: ScanView, scan_id: Seq<char>, reason: Seq<char>, now: Seq<char>) -> ScanView {
    let last = broken_off_progress(s.progress, reason, now);
    let warnings = if reason.len() == 0 {
        s.warnings
    } else {
        push_unique(s.warnings, reason)
    };
    ScanView {
        progress: last,
        cache: None,
        ids: ids_of(s.results),
        warnings,
        summary: Some(
            summary_of(scan_id, s.source, s.options, last, warnings, counters_of(s.results)),
        ),
        cancel_requested: false,
        ..s
    }
}

/// What the background work after a scan needs.
pub struct ScanCompletion {
    pub snapshot: ScanSnapshot,
    pub locators: Vec<DeletedArtifactLocator>,
}

impl ScanSession {
    /// The session of a scan that waits to start.
    pub fn queued(scan_id: &str, source: ScanSource, options: ScanOptions, now: &str) -> (r: Self)
        ensures
            r@ == queued_session(scan_id@, source, options, now@),
    {
        let message = concat2("Queued scan for ", source.display_name.as_str());
        let session = ScanSession {
            progress: ScanProgress::starting(scan_id, options.mode, "queued", message, now),
            source,
            options,
            results: Vec::new(),
            deleted_browse_cache: None,
            result_ids: StringHashSet::new(),
            warnings: Vec::new(),
            summary: None,
            cancel_requested: false,
        };
        assert(session@.results =~= seq![]);
        assert(session@.warnings =~= seq![]);
        session
    }

    /// Asks a scan to stop; one that has ended stays as it is.
    pub fn stop(&mut self, now: &str)
        ensures
            final(self)@ == stopped(old(self)@, now@),
    {
        if self.progress.status.is_terminal() {
            return;
        }
        self.cancel_requested = true;
        self.progress.message = owned("Stopping scan after the current read batch");
        self.progress.updated_at = owned(now);
    }

    /// Takes in how far the scan is.
    pub fn update_progress(&mut self, progress: ScanProgress)
        ensures
            final(self)@ == (ScanView { progress: progress@, ..old(self)@ }),
    {
        self.progress = progress;
    }

    /// Takes in a batch of results; those that are known already are left out.
    pub fn update_results(&mut self, results: &Vec<ArtifactRecord>)
        ensures
            final(self)@ == with_batch(old(self)@, record_views(results@)),
    {
        let ghost first = self@;
        let ghost batch = record_views(results@);
        let mut i: usize = 0;
        assert(batch.subrange(0, 0) =~= seq![]);
        while i < results.len()
            invariant
                i <= results@.len(),
                batch == record_views(results@),
                self@ == with_batch(first, batch.subrange(0, i as int)),
            decreases results@.len() - i,
        {
            let ghost before = self@;
            proof {
                let longer = batch.subrange(0, i + 1);
                assert(longer.drop_last() =~= batch.subrange(0, i as int));
                assert(longer.last() == results@[i as int]@);
            }
            let record = &results[i];
            if !self.result_ids.contains(record.id.as_str()) {
                self.result_ids.insert(record.id.clone());
                let copy = record.clone();
                proof {
                    lemma_same_view(*record, copy);
                }
                self.results.push(copy);
                assert(self@.results =~= before.results.push(copy@));
            }
            i += 1;
        }
        assert(batch.subrange(0, i as int) =~= batch);
    }

    /// Takes in the outcome of a scan, and gives what is kept of it and which results the
    /// browser places in the folder tree.
    pub fn complete_scan(&mut self, scan_id: &str, execution: ScanExecution) -> (r: ScanCompletion)
        ensures
            final(self)@ == completed(
                old(self)@,
                scan_id@,
                execution.progress@,
                record_views(execution.results@),
                views(execution.warnings@),
                execution.counters,
            ),
            final(self).results@ == execution.results@,
            r.snapshot@ == (SnapshotView {
                summary: final(self)@.summary->0,
                source: final(self)@.source,
                progress: final(self)@.progress,
                results: seq![],
            }),
            r.locators@.len() == candidate_indices(
                execution.results@,
                execution.results@.len() as int,
            ).len(),
            forall|k: int|
                0 <= k < r.locators@.len() ==> locates(
                    #[trigger] r.locators@[k],
                    execution.results@,
                    candidate_indices(execution.results@, execution.results@.len() as int)[k],
                ),
    {
        let locators = collect_deleted_artifact_locators(execution.results.as_slice());
        self.result_ids = collect_ids(&execution.results);
        self.progress = execution.progress;
        self.results = execution.results;
        self.deleted_browse_cache = None;
        self.warnings = execution.warnings;
        self.cancel_requested = false;
        assert(views(self.warnings@).len() == self.warnings@.len());
        if self.warnings.len() > 0 {
            self.progress.status = ScanStatus::CompletedWithWarnings;
        }
        let summary = build_summary(
            scan_id,
            &self.source,
            &self.options,
            &self.progress,
            &self.warnings,
            execution.counters,
        );
        let copy = summary.clone();
        assert(copy@ =~= summary@);
        self.summary = Some(summary);
        let none: Vec<ArtifactRecord> = Vec::new();
        assert(record_views(none@) =~= seq![]);
        let snapshot = ScanSnapshot {
            summary: copy,
            source: self.source.clone(),
            progress: self.progress.clone(),
            results: none,
        };
        ScanCompletion { snapshot, locators }
    }

    /// Closes a scan that broke off, with the reason as a warning.
    pub fn finalize_scan_with_warning(&mut self, scan_id: &str, reason: &str, now: &str)
        ensures
            final(self)@ == broken_off(old(self)@, scan_id@, reason@, now@),
    {
        self.break_off(reason, now);
        if !reason.is_empty() && !contains_string(&self.warnings, reason) {
            let ghost before = views(self.warnings@);
            self.warnings.push(owned(reason));
            assert(views(self.warnings@) =~= before.push(reason@));
        }
        let counters = summarize_scan_counters(&self.results);
        let summary = build_summary(
            scan_id,
            &self.source,
            &self.options,
            &self.progress,
            &self.warnings,
            counters,
        );
        self.summary = Some(summary);
    }

    fn break_off(&mut self, reason: &str, now: &str)
        ensures
            final(self)@ == (ScanView {
                progress: broken_off_progress(old(self)@.progress, reason@, now@),
                cache: None,
                ids: ids_of(old(self)@.results),
                cancel_requested: false,
                ..old(self)@
            }),
            final(self).warnings == old(self).warnings,
    {
        self.progress.status = ScanStatus::CompletedWithWarnings;
        self.progress.message = owned(reason);
        self.progress.phase = ScanPhase::Finalizing;
        self.progress.stage = owned("finalizing");
        self.progress.eta_seconds = Some(0);
        self.progress.updated_at = owned(now);
        self.deleted_browse_cache = None;
        self.result_ids = collect_ids(&self.results);
        self.cancel_requested = false;
    }
}

/// How many results of each sort a scan has.
pub fn summarize_scan_counters(results: &Vec<ArtifactRecord>) -> (r: ScanCounters)
    ensures
        r == counters_of(record_views(results@)),
{
    collect_counters(results)
}

// ---------------------------------------------------------------------------
// Laws.

/// The ids that a session knows are those of its results.
pub open spec fn ids_fit(s: ScanView) -> bool {
    s.ids == ids_of(s.results)
}

proof fn lemma_batch_ids(s: ScanView, batch: Seq<ArtifactView>)
    ensures
        s.ids.subset_of(with_batch(s, batch).ids),
        forall|i: int|
            0 <= i < batch.len() ==> with_batch(s, batch).ids.contains((#[trigger] batch[i]).id),
    decreases batch.len(),
{
    if batch.len() > 0 {
        let front = batch.drop_last();
        lemma_batch_ids(s, front);
        assert forall|i: int| 0 <= i < batch.len() implies with_batch(s, batch).ids.contains(
            (#[trigger] batch[i]).id,
        ) by {
            if i < front.len() {
                assert(front[i] == batch[i]);
            }
        }
    }
}

proof fn lemma_known_batch(s: ScanView, batch: Seq<ArtifactView>)
    requires
        forall|i: int| 0 <= i < batch.len() ==> s.ids.contains((#[trigger] batch[i]).id),
    ensures
        with_batch(s, batch) == s,
    decreases batch.len(),
{
    if batch.len() > 0 {
        let front = batch.drop_last();
        assert forall|i: int| 0 <= i < front.len() implies s.ids.contains(
            (#[trigger] front[i]).id,
        ) by {
            assert(front[i] == batch[i]);
        }
        lemma_known_batch(s, front);
        assert(batch.last() == batch[batch.len() - 1]);
    }
}

/// A batch that comes twice is taken once.
pub proof fn lemma_results_come_once(s: ScanView, batch: Seq<ArtifactView>)
    ensures
        with_batch(with_batch(s, batch), batch) == with_batch(s, batch),
{
    lemma_batch_ids(s, batch);
    lemma_known_batch(with_batch(s, batch), batch);
}

/// A session keeps its ids in step with its results: from the start, with every batch, at the
/// end and where it breaks off.
pub proof fn lemma_ids_stay_in_step(
    s: ScanView,
    batch: Seq<ArtifactView>,
    scan_id: Seq<char>,
    source: ScanSource,
    options: ScanOptions,
    progress: ProgressView,
    warnings: Seq<Seq<char>>,
    counters: ScanCounters,
    reason: Seq<char>,
    now: Seq<char>,
)
    requires
        ids_fit(s),
    ensures
        ids_fit(queued_session(scan_id, source, options, now)),
        ids_fit(with_batch(s, batch)),
        ids_fit(stopped(s, now)),
        ids_fit(completed(s, scan_id, progress, batch, warnings, counters)),
        ids_fit(broken_off(s, scan_id, reason, now)),
    decreases batch.len(),
{
    if batch.len() > 0 {
        lemma_ids_stay_in_step(
            s,
            batch.drop_last(),
            scan_id,
            source,
            options,
            progress,
            warnings,
            counters,
            reason,
            now,
        );
        let before = with_batch(s, batch.drop_last());
        assert(before.results.push(batch.last()).drop_last() =~= before.results);
    }
}

/// No result is lost: what a session has found stays in front of what a batch adds, and stays
/// when the scan breaks off.
pub proof fn lemma_found_results_stay(
    s: ScanView,
    batch: Seq<ArtifactView>,
    scan_id: Seq<char>,
    reason: Seq<char>,
    now: Seq<char>,
)
    ensures
        s.results.is_prefix_of(with_batch(s, batch).results),
        broken_off(s, scan_id, reason, now).results == s.results,
    decreases batch.len(),
{
    if batch.len() > 0 {
        lemma_found_results_stay(s, batch.drop_last(), scan_id, reason, now);
    }
}

/// A scan that has ended is not stopped any more.
pub proof fn lemma_ended_scans_are_not_stopped(s: ScanView, now: Seq<char>)
    requires
        s.progress.status.spec_is_terminal(),
    ensures
        stopped(s, now) == s,
{
}

} // verus!
