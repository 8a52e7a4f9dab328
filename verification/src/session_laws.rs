//! What scans and recoveries say of themselves, told of their results.

use crate::cases::latest_first;
use crate::clock::rfc3339_nanos;
use crate::codec::sha256_text;
use crate::digests::blake3_text;
use crate::model::{
    ArtifactClass, ArtifactFamily, ArtifactRecord, Confidence, NameSourceKind, OriginType,
    Recoverability, RecoveryItemResult, RecoveryStatus, ScanCounters, ScanMode, ScanOptions,
    ScanSource, ScanStatus, ScanSummary,
};
use crate::records::ArtifactView;
use crate::recovery::{chunk_written, copy_status, is_recovered_item, last_notes, CopyView};
use crate::results::{
    counters_of, fast_budget, is_visible, lemma_shown_order, merged, merged_upto, merge_start,
    merge_step, offset_key_of, path_key_of, path_size_key, shown_order,
};
use crate::scan_run::{
    after_carve_batch, after_fat_batch, after_ntfs_batch, cancelled_progress, finished_progress,
    first_progress, plus_hits, with_hits_shown, HitCounts, ProgressView, RunView, ScanProgress,
};
use crate::sessions::{broken_off, completed, stopped, summary_of, ScanSnapshot, ScanView};
use crate::sort::{
    lemma_by_text, lemma_reversed, lemma_stable_sorted_keeps_items, stable_sorted, text_before,
};
use crate::text::{ascii_lower, lemma_count_if, opt_view, replaced, views};
use vstd::prelude::*;
use vstd::string::*;

verus! {

// ---------------------------------------------------------------------------
// Fields.

/// What is told of the summary of a scan is what its fields hold.
pub proof fn lemma_scan_summary_shows_its_fields(r: ScanSummary)
    ensures
        r@.scan_id == r.scan_id@,
        r@.source_id == r.source_id@,
        r@.source_name == r.source_name@,
        r@.mode == r.mode,
        r@.filesystem == r.filesystem,
        r@.status == r.status,
        r@.started_at == r.started_at@,
        r@.finished_at == opt_view(r.finished_at),
        r@.duration_seconds == r.duration_seconds,
        r@.warnings == views(r.warnings@),
        r@.counters == r.counters,
{
}

/// What is told of the progress of a scan is what its fields hold.
pub proof fn lemma_progress_shows_its_fields(r: ScanProgress)
    ensures
        r@.scan_id == r.scan_id@,
        r@.status == r.status,
        r@.phase == r.phase,
        r@.stage == r.stage@,
        r@.files_examined == r.files_examined,
        r@.artifacts_found == r.artifacts_found,
        r@.records_scanned == r.records_scanned,
        r@.candidates_surfaced == r.candidates_surfaced,
        r@.validated_hits == r.validated_hits,
        r@.named_hits == r.named_hits,
        r@.carved_hits == r.carved_hits,
        r@.fragment_hits == r.fragment_hits,
        r@.verified_hits == r.verified_hits,
        r@.recoverable_hits == r.recoverable_hits,
        r@.bytes_scanned == r.bytes_scanned,
        r@.eta_seconds == r.eta_seconds,
        r@.target_sla_seconds == r.target_sla_seconds,
        r@.raw_evidence_state == r.raw_evidence_state,
        r@.message == r.message@,
        r@.stage_timing_ms == r.stage_timing_ms@,
        r@.started_at == r.started_at@,
        r@.last_progress_at == r.last_progress_at@,
        r@.updated_at == r.updated_at@,
{
}

// ---------------------------------------------------------------------------
// Summaries.

/// The summary of a scan names its source and how it was scanned, when it began and when it ended,
/// how it ended and how long it took.
pub proof fn lemma_summary_tells_of_the_scan(
    scan_id: Seq<char>,
    source: ScanSource,
    options: ScanOptions,
    progress: ProgressView,
    warnings: Seq<Seq<char>>,
    counters: ScanCounters,
)
    ensures
        ({
            let s = summary_of(scan_id, source, options, progress, warnings, counters);
            &&& s.scan_id == scan_id
            &&& s.source_id == source.id@ && s.source_name == source.display_name@
            &&& s.mode == options.mode && s.filesystem == source.filesystem
            &&& s.status == progress.status
            &&& s.started_at == progress.started_at && s.finished_at == Some(progress.updated_at)
            &&& s.warnings == warnings && s.counters == counters
            &&& match (rfc3339_nanos(s.started_at), rfc3339_nanos(progress.updated_at)) {
                (Some(start), Some(end)) => end >= start && end - start < 0x1_0000_0000_0000_0000 ==> (
                s.duration_seconds matches Some(n) && n * 1_000_000_000 <= end - start < (n + 1)
                    * 1_000_000_000),
                _ => s.duration_seconds is None,
            }
        }),
{
}

/// A scan that is done keeps what it found and says how it ended; warnings are told in its status.
pub proof fn lemma_done_scans_keep_their_results(
    s: ScanView,
    scan_id: Seq<char>,
    progress: ProgressView,
    results: Seq<ArtifactView>,
    warnings: Seq<Seq<char>>,
    counters: ScanCounters,
)
    ensures
        ({
            let t = completed(s, scan_id, progress, results, warnings, counters);
            &&& t.results == results && t.warnings == warnings
            &&& t.source == s.source && t.options == s.options
            &&& !t.cancel_requested
            &&& t.summary matches Some(summary) && summary.status == t.progress.status
                && summary.scan_id == scan_id && summary.counters == counters
            &&& warnings.len() == 0 ==> t.progress.status == progress.status
            &&& warnings.len() > 0 ==> t.progress.status == ScanStatus::CompletedWithWarnings
            &&& t.progress.started_at == progress.started_at && t.progress.message
                == progress.message
        }),
{
}

/// A scan that is broken off says why, keeps what it found, and is over.
pub proof fn lemma_broken_off_scans_tell_why(
    s: ScanView,
    scan_id: Seq<char>,
    reason: Seq<char>,
    now: Seq<char>,
)
    ensures
        ({
            let t = broken_off(s, scan_id, reason, now);
            &&& t.progress.status == ScanStatus::CompletedWithWarnings
            &&& t.progress.message == reason && t.progress.updated_at == now
            &&& t.progress.started_at == s.progress.started_at
            &&& reason.len() > 0 ==> t.warnings.contains(reason)
            &&& reason.len() == 0 ==> t.warnings == s.warnings
            &&& t.summary matches Some(summary) && summary.counters == counters_of(s.results)
                && summary.finished_at == Some(now)
        }),
{
    let warnings = broken_off(s, scan_id, reason, now).warnings;
    if reason.len() > 0 && !s.warnings.contains(reason) {
        assert(warnings[s.warnings.len() as int] == reason);
    }
}

/// A running scan that is to stop is asked to; what it has stays.
pub proof fn lemma_running_scans_are_asked_to_stop(s: ScanView, now: Seq<char>)
    requires
        s.progress.status == ScanStatus::Running,
    ensures
        stopped(s, now).cancel_requested,
        stopped(s, now).results == s.results,
        stopped(s, now).progress.status == ScanStatus::Running,
        stopped(s, now).progress.updated_at == now,
        stopped(s, now).progress.started_at == s.progress.started_at,
{
}

// ---------------------------------------------------------------------------
// Counters.

/// Each result is counted once, and under its own family, origin and recoverability.
pub proof fn lemma_each_result_is_counted(results: Seq<ArtifactView>, v: ArtifactView)
    requires
        results.len() < usize::MAX,
    ensures
        ({
            let a = counters_of(results);
            let b = counters_of(results.push(v));
            let one = |counts: bool|
                if counts {
                    1int
                } else {
                    0int
                };
            &&& b.total_results == a.total_results + 1
            &&& b.executable_results == a.executable_results + one(
                v.family == ArtifactFamily::Executable,
            )
            &&& b.archive_results == a.archive_results + one(v.family == ArtifactFamily::Archive)
            &&& b.script_results == a.script_results + one(v.family == ArtifactFamily::Script)
            &&& b.carved_results == a.carved_results + one(
                v.origin_type == OriginType::UnallocatedCarved,
            )
            &&& b.partial_results == a.partial_results + one(
                v.origin_type == OriginType::PartialFragment || v.recoverability
                    == Recoverability::Partial,
            )
            &&& b.recoverable_results == a.recoverable_results + one(
                v.recoverability == Recoverability::Good || v.recoverability
                    == Recoverability::Partial,
            )
        }),
        counters_of(seq![]).total_results == 0 && counters_of(seq![]).executable_results == 0
            && counters_of(seq![]).archive_results == 0 && counters_of(seq![]).script_results == 0
            && counters_of(seq![]).carved_results == 0 && counters_of(seq![]).partial_results == 0
            && counters_of(seq![]).recoverable_results == 0,
{
    let more = results.push(v);
    assert(more.drop_last() =~= results);
    lemma_count_if(results, crate::results::of_family(ArtifactFamily::Executable));
    lemma_count_if(results, crate::results::of_family(ArtifactFamily::Archive));
    lemma_count_if(results, crate::results::of_family(ArtifactFamily::Script));
    lemma_count_if(results, crate::results::is_carved());
    lemma_count_if(results, crate::results::is_partial());
    lemma_count_if(results, crate::results::is_recoverable());
}

/// Each hit of a scan is counted once, and under what it is.
pub proof fn lemma_each_hit_is_counted(h: HitCounts, v: ArtifactView)
    requires
        h.visible < u64::MAX && h.validated < u64::MAX && h.named < u64::MAX && h.carved < u64::MAX
            && h.fragments < u64::MAX && h.recoverable < u64::MAX,
    ensures
        ({
            let g = plus_hits(h, seq![v]);
            let one = |counts: bool|
                if counts {
                    1int
                } else {
                    0int
                };
            &&& g.visible == h.visible + 1
            &&& g.validated == h.validated + one(
                v.artifact_class != ArtifactClass::NamedMetadataCandidate,
            )
            &&& g.named == h.named + one(
                v.original_path is Some || v.name_source != NameSourceKind::Generated,
            )
            &&& g.carved == h.carved + one(v.origin_type == OriginType::UnallocatedCarved)
            &&& g.fragments == h.fragments + one(
                v.is_fragment || v.origin_type == OriginType::PartialFragment,
            )
            &&& g.recoverable == h.recoverable + one(
                v.recoverability == Recoverability::Good || v.recoverability
                    == Recoverability::Partial,
            )
        }),
{
    assert(seq![v].drop_last() =~= seq![]);
    reveal_with_fuel(crate::text::count_if, 3);
}

/// The progress of a scan shows its hits, each under its own name.
pub proof fn lemma_progress_shows_the_hits(p: ProgressView, h: HitCounts)
    ensures
        ({
            let q = with_hits_shown(p, h);
            &&& q.candidates_surfaced == h.visible && q.validated_hits == h.validated
                && q.named_hits == h.named && q.carved_hits == h.carved && q.fragment_hits
                == h.fragments && q.recoverable_hits == h.recoverable && q.verified_hits
                == h.validated && q.artifacts_found == h.validated
            &&& q.scan_id == p.scan_id && q.status == p.status && q.started_at == p.started_at
                && q.bytes_scanned == p.bytes_scanned && q.records_scanned == p.records_scanned
        }),
{
}

/// A scan that begins has found nothing yet; a fast one aims at two minutes, a deep one at ten.
pub proof fn lemma_scans_begin_with_nothing(
    scan_id: Seq<char>,
    mode: ScanMode,
    stage: Seq<char>,
    message: Seq<char>,
    now: Seq<char>,
)
    ensures
        ({
            let p = first_progress(scan_id, mode, stage, message, now);
            &&& p.scan_id == scan_id && p.status == ScanStatus::Running && p.stage == stage
                && p.message == message
            &&& p.started_at == now && p.updated_at == now && p.last_progress_at == now
            &&& p.files_examined == 0 && p.artifacts_found == 0 && p.records_scanned == 0
                && p.candidates_surfaced == 0 && p.bytes_scanned == 0 && p.eta_seconds is None
            &&& mode == ScanMode::Fast ==> p.target_sla_seconds == 120
            &&& mode == ScanMode::Deep ==> p.target_sla_seconds == 600
        }),
{
}

/// What a pass over the file table, over directories or over free space adds is what it read: a
/// record of a table is 1024 bytes, an entry of a directory 32.
pub proof fn lemma_passes_count_what_they_read(
    s: RunView,
    done: u64,
    found: usize,
    kept: nat,
    batch: Seq<ArtifactView>,
    rate: Seq<char>,
    now: Seq<char>,
)
    requires
        s.files_examined <= done <= 0x1_0000_0000,
        s.files_examined <= found <= 0x1_0000_0000,
        s.carve_bytes <= 0x1_0000_0000_0000,
        s.metadata_bytes <= 0x1_0000_0000_0000,
    ensures
        ({
            let t = after_ntfs_batch(s, done, found, batch, rate, now);
            &&& t.files_examined == done && t.progress.files_examined == done
                && t.progress.records_scanned == done
            &&& t.metadata_bytes == 1024 * done && t.progress.bytes_scanned == 1024 * done
                + s.carve_bytes
            &&& t.progress.updated_at == now && t.progress.started_at == s.progress.started_at
        }),
        ({
            let t = after_fat_batch(s, found, batch, rate, now);
            &&& t.files_examined == found && t.progress.files_examined == found && t.processed
                == found
            &&& t.metadata_bytes == 32 * found && t.progress.bytes_scanned == 32 * found
                + s.carve_bytes
        }),
        ({
            let t = after_carve_batch(s, done, kept, found, batch, now);
            &&& t.carve_bytes == done && t.progress.bytes_scanned == s.metadata_bytes + done
            &&& t.carved_processed == found && t.hits == s.hits
            &&& t.progress.files_examined == s.progress.files_examined
        }),
{
}

/// The progress of a scan that is over shows what its results are.
pub proof fn lemma_last_progress_shows_the_results(
    s: RunView,
    results: Seq<ArtifactView>,
    last_stage: Seq<char>,
    millis: u64,
    whole: u64,
    now: Seq<char>,
)
    requires
        results.len() <= u64::MAX,
    ensures
        ({
            let p = finished_progress(s, results, last_stage, millis, whole, now);
            &&& p.candidates_surfaced == results.len()
            &&& p.updated_at == now && p.started_at == s.progress.started_at && p.eta_seconds
                == Some(0u64)
            &&& p.files_examined >= s.files_examined && p.files_examined
                >= s.progress.files_examined
            &&& p.bytes_scanned >= s.progress.bytes_scanned
        }),
        ({
            let p = cancelled_progress(s.progress, results, now);
            &&& p.candidates_surfaced == results.len() && p.updated_at == now
            &&& p.bytes_scanned == s.progress.bytes_scanned
        }),
{
}

// ---------------------------------------------------------------------------
// Results.

/// Results are shown by score, the higher first; then the surer ones, then those of which more can
/// be had, then by name.
pub proof fn lemma_results_are_shown_in_order(
    results: Seq<ArtifactRecord>,
    r: Seq<ArtifactRecord>,
    i: int,
    j: int,
)
    requires
        stable_sorted(results, r, shown_order()),
        0 <= i < j < r.len(),
    ensures
        r.len() == results.len(),
        r[i].priority_score >= r[j].priority_score,
        r[i].priority_score == r[j].priority_score ==> {
            &&& r[j].confidence == Confidence::High ==> r[i].confidence == Confidence::High
            &&& r[i].confidence == Confidence::Low ==> r[j].confidence == Confidence::Low
            &&& r[i].confidence == r[j].confidence ==> {
                &&& r[j].recoverability == Recoverability::Good ==> r[i].recoverability
                    == Recoverability::Good
                &&& r[i].recoverability == Recoverability::Poor ==> r[j].recoverability
                    == Recoverability::Poor || r[j].recoverability == Recoverability::Unknown
                &&& r[i].recoverability == Recoverability::Unknown ==> r[j].recoverability
                    == Recoverability::Unknown
                &&& r[i].recoverability == r[j].recoverability ==> !text_before(
                    r[j].name@,
                    r[i].name@,
                )
            }
        },
{
    lemma_shown_order();
    lemma_stable_sorted_keeps_items(results, r, shown_order());
    assert(!shown_order()(r[j], r[i]));
}

/// Only what is little sure is held back, and only where it is not asked for.
pub proof fn lemma_sure_results_are_visible(v: ArtifactView, include_low_confidence: bool)
    ensures
        v.confidence == Confidence::High || v.confidence == Confidence::Medium ==> is_visible(
            v,
            include_low_confidence,
        ),
        is_visible(v, true),
        v.confidence == Confidence::Low && !v.deleted_entry ==> !is_visible(v, false),
        v.confidence == Confidence::Low && v.deleted_entry && v.filesystem_record is Some
            && v.original_path is Some ==> is_visible(v, false),
        v.confidence == Confidence::Low && v.filesystem_record is None ==> !is_visible(v, false),
{
}

/// A carved file is one that was found already where it has the path and size, or the place, kind
/// and size, of a result; else it is added.
pub proof fn lemma_merging_adds_what_is_new(results: Seq<ArtifactRecord>, r: ArtifactRecord)
    ensures
        (forall|i: int|
            0 <= i < results.len() ==> {
                let known = #[trigger] results[i];
                &&& r.filesystem_record is Some ==> known.filesystem_record != r.filesystem_record
                &&& r.original_path is Some && known.original_path is Some ==> path_size_key(
                    known.original_path->0@,
                    known.size,
                ) != path_size_key(r.original_path->0@, r.size)
                &&& r.raw_offset is Some ==> known.raw_offset != r.raw_offset || known.kind != r.kind
                    || known.size != r.size
            }) ==> merged(results, seq![r]) == results.push(r),
        (exists|i: int|
            0 <= i < results.len() && r.filesystem_record is Some && (
            #[trigger] results[i]).filesystem_record == r.filesystem_record) ==> merged(
            results,
            seq![r],
        ) == results,
        (exists|i: int|
            0 <= i < results.len() && r.raw_offset is Some && (#[trigger] results[i]).raw_offset
                == r.raw_offset && results[i].kind == r.kind && results[i].size == r.size) ==> merged(
            results,
            seq![r],
        ) == results,
{
    reveal_with_fuel(merged_upto, 2);
    let start = merge_start(results);
    assert(merged(results, seq![r]) == merge_step(start, r).results);
    if exists|i: int|
        0 <= i < results.len() && r.filesystem_record is Some && (
        #[trigger] results[i]).filesystem_record == r.filesystem_record {
        assert(start.records.contains(r.filesystem_record->0));
    }
    if exists|i: int|
        0 <= i < results.len() && r.raw_offset is Some && (#[trigger] results[i]).raw_offset
            == r.raw_offset && results[i].kind == r.kind && results[i].size == r.size {
        let i = choose|i: int|
            0 <= i < results.len() && r.raw_offset is Some && (#[trigger] results[i]).raw_offset
                == r.raw_offset && results[i].kind == r.kind && results[i].size == r.size;
        assert(offset_key_of(results[i]) == offset_key_of(r));
        assert(start.offsets.contains(offset_key_of(r)->0));
    }
    if forall|i: int|
        0 <= i < results.len() ==> {
            let known = #[trigger] results[i];
            &&& r.filesystem_record is Some ==> known.filesystem_record != r.filesystem_record
            &&& r.original_path is Some && known.original_path is Some ==> path_size_key(
                known.original_path->0@,
                known.size,
            ) != path_size_key(r.original_path->0@, r.size)
            &&& r.raw_offset is Some ==> known.raw_offset != r.raw_offset || known.kind != r.kind
                || known.size != r.size
        } {
        assert(!(r.filesystem_record matches Some(n) && start.records.contains(n)));
        assert(!(path_key_of(r) matches Some(k) && start.paths.contains(k)));
        assert(!(offset_key_of(r) matches Some(k) && start.offsets.contains(k)));
    }
}

/// Paths that differ in upper and lower case, or in the kind of slash, are the same.
pub proof fn lemma_paths_are_compared_loosely(a: Seq<char>, b: Seq<char>, size: u64)
    requires
        ascii_lower(replaced(a, '/', '\\')) == ascii_lower(replaced(b, '/', '\\')),
    ensures
        path_size_key(a, size) == path_size_key(b, size),
{
}

/// A fast scan carves less where the file table told much, and never more than it may.
pub proof fn lemma_fast_budgets(baseline: u64, candidates: u64, named: u64, recoverable: u64)
    requires
        baseline <= 0x1_0000_0000_0000,
        candidates <= 0x1_0000_0000_0000,
        named <= 0x1_0000_0000_0000,
        recoverable <= 0x1_0000_0000_0000,
    ensures
        named >= 5000 && 100 * recoverable >= 60 * named ==> fast_budget(
            baseline,
            candidates,
            named,
            recoverable,
        ) == 3 * baseline / 4,
        named < 5000 && candidates >= 1000 && 100 * named < 15 * candidates ==> fast_budget(
            baseline,
            candidates,
            named,
            recoverable,
        ) == baseline,
        named < 5000 && (candidates < 1000 || 100 * named >= 15 * candidates) ==> fast_budget(
            baseline,
            candidates,
            named,
            recoverable,
        ) == 7 * baseline / 8,
{
}

/// Cases are listed with the latest scan first.
pub proof fn lemma_latest_cases_come_first(
    cases: Seq<ScanSnapshot>,
    r: Seq<ScanSnapshot>,
    i: int,
    j: int,
)
    requires
        stable_sorted(cases, r, latest_first()),
        0 <= i < j < r.len(),
    ensures
        !text_before(r[i].summary.started_at@, r[j].summary.started_at@),
{
    lemma_by_text(crate::cases::start_of());
    lemma_reversed(crate::sort::by_text(crate::cases::start_of()));
    lemma_stable_sorted_keeps_items(cases, r, latest_first());
    assert(!latest_first()(r[j], r[i]));
}

// ---------------------------------------------------------------------------
// Recovery.

/// What is said of a recovered file names it, says where it was written, and gives the digests of
/// what was written, each of its own kind.
pub proof fn lemma_recovered_items_tell_the_digests(
    r: RecoveryItemResult,
    artifact_id: Seq<char>,
    file_path: Seq<char>,
    metadata_path: Seq<char>,
    bytes: Seq<u8>,
    status: RecoveryStatus,
    notes: Seq<Seq<char>>,
)
    requires
        is_recovered_item(r, artifact_id, file_path, metadata_path, bytes, status, notes),
    ensures
        r.artifact_id@ == artifact_id,
        r.file_path matches Some(p) && p@ == file_path,
        r.metadata_path matches Some(p) && p@ == metadata_path,
        r.sha256 matches Some(d) && d@ == sha256_text(bytes),
        r.blake3 matches Some(d) && d@ == blake3_text(bytes),
        r.status == status,
        views(r.notes@) == notes,
{
}

/// A recovery is whole where nothing is missing and nothing was noted; where bytes are missing it
/// is partial and says how many.
pub proof fn lemma_recoveries_tell_what_is_missing(v: CopyView)
    ensures
        v.missing > 0 ==> copy_status(v) == RecoveryStatus::Partial && last_notes(v).len()
            == v.notes.len() + 1,
        v.missing == 0 && v.notes.len() == 0 ==> copy_status(v) == RecoveryStatus::Recovered,
        v.missing == 0 && v.notes.len() > 0 ==> copy_status(v)
            == RecoveryStatus::RecoveredWithWarnings && last_notes(v) == v.notes,
{
}

/// Bytes that are written come behind those before, and the copy goes on behind them.
pub proof fn lemma_written_bytes_come_in_order(v: CopyView, bytes: Seq<u8>)
    requires
        bytes.len() <= v.left,
        v.offset + v.left <= u64::MAX,
        v.runs.len() > 0,
    ensures
        ({
            let w = chunk_written(v, bytes);
            &&& w.written == v.written + bytes
            &&& w.left == v.left - bytes.len() && w.offset == v.offset + bytes.len()
            &&& w.missing == v.missing
            &&& w.left > 0 ==> w.runs == v.runs
            &&& w.left == 0 ==> w.runs == v.runs.drop_first()
        }),
{
}

} // verus!
