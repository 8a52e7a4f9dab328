//! The course of a scan: its stages, what it reports, and how it ends.

use crate::clock::{iso_text, now_iso};
use crate::model::{
    ArtifactRecord, FileSystemKind, RawEvidenceState, ScanCounters, ScanMode, ScanOptions,
    ScanPhase, ScanSource, ScanStatus,
};
use crate::ntfs_records::{refresh_recoverability, refreshed};
use crate::numbers::{decimal, push_decimal};
use crate::records::{record_views, ArtifactView};
use crate::results::{
    adaptive_fast_carve_budget, capped_mul, capped_product, collect_counters, count_carved_hits,
    count_fragment_hits, count_named_hits, count_recoverable_hits, count_validated_hits,
    counters_of, fast_budget, fast_carve_wanted, filter_scan_results, filtered_results_batch,
    has_name, is_carved, is_fragment, is_recoverable, is_validated, merge_results, merged,
    should_run_fast_carve, shown_order, sort_results, visible, visible_batch,
    FAST_MODE_CARVE_BUDGET,
};
use crate::seqs::kept;
use crate::sort::{
    lemma_text_before_asymmetric, lemma_text_before_total, lemma_text_before_transitive, stable_sorted,
    str_before, text_before,
};
use crate::text::{concat2, concat3, count_if, owned, views};
use crate::volume::VolumeBitmap;
use vstd::prelude::*;
use vstd::string::*;

verus! {

/// How many bytes a record of the master file table has.
pub const NTFS_METADATA_RECORD_BYTES: u64 = 1024;

/// How many bytes an entry of a FAT directory has.
pub const FAT_DIRECTORY_ENTRY_BYTES: u64 = 32;

// ---------------------------------------------------------------------------
// Stage timings.

/// How long each stage took, in milliseconds, in the order of the stages' names.
#[derive(Debug)]
pub struct StageTimings {
    pub entries: Vec<(String, u64)>,
}

impl View for StageTimings {
    type V = Seq<(Seq<char>, u64)>;

    open spec fn view(&self) -> Seq<(Seq<char>, u64)> {
        self.entries@.map_values(|e: (String, u64)| (e.0@, e.1))
    }
}

/// Every stage occurs once, and the stages come in the order of their names.
pub open spec fn stages_in_order(timings: Seq<(Seq<char>, u64)>) -> bool {
    forall|i: int, j: int|
        0 <= i < j < timings.len() ==> text_before(
            (#[trigger] timings[i]).0,
            (#[trigger] timings[j]).0,
        )
}

/// The place of a stage: how many stages in front come before it.
pub open spec fn timing_index(timings: Seq<(Seq<char>, u64)>, stage: Seq<char>) -> int
    decreases timings.len(),
{
    if timings.len() == 0 || !text_before(timings[0].0, stage) {
        0
    } else {
        1 + timing_index(timings.drop_first(), stage)
    }
}

/// The timings with that of a stage.
pub open spec fn with_timing(
    timings: Seq<(Seq<char>, u64)>,
    stage: Seq<char>,
    millis: u64,
) -> Seq<(Seq<char>, u64)> {
    let i = timing_index(timings, stage);
    if i < timings.len() && timings[i].0 == stage {
        timings.update(i, (stage, millis))
    } else {
        timings.insert(i, (stage, millis))
    }
}

/// The time of all stages together.
pub open spec fn total_millis(timings: Seq<(Seq<char>, u64)>) -> nat
    decreases timings.len(),
{
    if timings.len() == 0 {
        0
    } else {
        total_millis(timings.drop_last()) + timings.last().1 as nat
    }
}

impl StageTimings {
    pub fn new() -> (r: Self)
        ensures
            r@ == Seq::<(Seq<char>, u64)>::empty(),
    {
        let r = StageTimings { entries: Vec::new() };
        assert(r@ =~= Seq::<(Seq<char>, u64)>::empty());
        r
    }

    /// Notes how long a stage took.
    pub fn note_stage_completion(&mut self, stage: &str, millis: u64)
        ensures
            final(self)@ == with_timing(old(self)@, stage@, millis),
    {
        let ghost all = self@;
        let mut i: usize = 0;
        assert(all.subrange(0, all.len() as int) =~= all);
        while i < self.entries.len() && str_before(self.entries[i].0.as_str(), stage)
            invariant
                *self == *old(self),
                all == self@,
                i <= all.len(),
                timing_index(all, stage@) == i + timing_index(
                    all.subrange(i as int, all.len() as int),
                    stage@,
                ),
            decreases all.len() - i,
        {
            let ghost rest = all.subrange(i as int, all.len() as int);
            assert(rest[0] == all[i as int]);
            assert(rest.drop_first() =~= all.subrange(i + 1, all.len() as int));
            i += 1;
        }
        proof {
            let rest = all.subrange(i as int, all.len() as int);
            assert(rest.len() > 0 ==> rest[0] == all[i as int]);
            assert(timing_index(all, stage@) == i);
        }
        if i < self.entries.len() && *self.entries[i].0.as_str() == *stage {
            self.entries[i].1 = millis;
            assert(self@ =~= all.update(i as int, (stage@, millis)));
        } else {
            self.entries.insert(i, (owned(stage), millis));
            assert(self@ =~= all.insert(i as int, (stage@, millis)));
        }
    }

    /// The time that is left of a whole when all stages are taken off.
    pub fn rest_of(&self, whole: u64) -> (r: u64)
        ensures
            r == if total_millis(self@) < whole {
                whole - total_millis(self@)
            } else {
                0
            },
    {
        let ghost all = self@;
        let mut sum: u64 = 0;
        let mut i: usize = 0;
        assert(all.subrange(0, 0) =~= seq![]);
        while i < self.entries.len()
            invariant
                all == self@,
                i <= all.len(),
                sum == if total_millis(all.subrange(0, i as int)) > u64::MAX {
                    u64::MAX as nat
                } else {
                    total_millis(all.subrange(0, i as int))
                },
            decreases all.len() - i,
        {
            assert(all.subrange(0, i + 1).drop_last() =~= all.subrange(0, i as int));
            sum = sum.saturating_add(self.entries[i].1);
            i += 1;
        }
        assert(all.subrange(0, i as int) =~= all);
        whole.saturating_sub(sum)
    }
}

/// The stages in front of the place of a stage come before it, and the one at its place does
/// not.
proof fn lemma_timing_index(timings: Seq<(Seq<char>, u64)>, stage: Seq<char>)
    ensures
        ({
            let i = timing_index(timings, stage);
            &&& 0 <= i <= timings.len()
            &&& forall|k: int| 0 <= k < i ==> text_before((#[trigger] timings[k]).0, stage)
            &&& i < timings.len() ==> !text_before(timings[i].0, stage)
        }),
    decreases timings.len(),
{
    if timings.len() > 0 && text_before(timings[0].0, stage) {
        let rest = timings.drop_first();
        lemma_timing_index(rest, stage);
        let i = timing_index(timings, stage);
        assert forall|k: int| 0 <= k < i implies text_before((#[trigger] timings[k]).0, stage) by {
            if k > 0 {
                assert(rest[k - 1] == timings[k]);
            }
        }
        if i < timings.len() {
            assert(rest[i - 1] == timings[i]);
        }
    }
}

/// What comes before a text that comes before another comes before that one too.
proof fn lemma_before_transitive(a: Seq<char>, b: Seq<char>, c: Seq<char>)
    requires
        text_before(a, b),
        text_before(b, c),
    ensures
        text_before(a, c),
{
    lemma_text_before_asymmetric(a, b);
    lemma_text_before_asymmetric(b, c);
    lemma_text_before_transitive(a, b, c);
    if !text_before(a, c) {
        lemma_text_before_total(a, c);
    }
}

/// Noting a stage keeps the stages in order, each of them once. The stage then has the time
/// that was noted, every other stage keeps its own, and no other comes or goes.
pub proof fn lemma_timings_stay_in_order(
    timings: Seq<(Seq<char>, u64)>,
    stage: Seq<char>,
    millis: u64,
)
    requires
        stages_in_order(timings),
    ensures
        stages_in_order(with_timing(timings, stage, millis)),
        with_timing(timings, stage, millis).contains((stage, millis)),
        forall|t: (Seq<char>, u64)|
            t.0 != stage ==> (#[trigger] with_timing(timings, stage, millis).contains(t)
                <==> timings.contains(t)),
{
    let i = timing_index(timings, stage);
    let after = with_timing(timings, stage, millis);
    let found = i < timings.len() && timings[i].0 == stage;
    lemma_timing_index(timings, stage);
    assert(after[i] == (stage, millis));
    if i < timings.len() && !found && !text_before(stage, timings[i].0) {
        lemma_text_before_total(stage, timings[i].0);
    }
    assert forall|k: int| i <= k < timings.len() && !(found && k == i) implies text_before(
        stage,
        (#[trigger] timings[k]).0,
    ) by {
        if k > i {
            assert(text_before(timings[i].0, timings[k].0));
            if !found {
                lemma_before_transitive(stage, timings[i].0, timings[k].0);
            }
        }
    }
    assert forall|t: (Seq<char>, u64)| t.0 != stage implies (#[trigger] after.contains(t)
        <==> timings.contains(t)) by {
        if after.contains(t) {
            let k = choose|k: int| 0 <= k < after.len() && after[k] == t;
            assert(t == timings[if found || k < i {
                k
            } else {
                k - 1
            }]);
        }
        if timings.contains(t) {
            let k = choose|k: int| 0 <= k < timings.len() && timings[k] == t;
            assert(t == after[if found || k < i {
                k
            } else {
                k + 1
            }]);
        }
    }
    assert forall|a: int, b: int| 0 <= a < b < after.len() implies text_before(
        (#[trigger] after[a]).0,
        (#[trigger] after[b]).0,
    ) by {
        let back = |k: int|
            if found || k < i {
                k
            } else {
                k - 1
            };
        if a != i {
            assert(after[a] == timings[back(a)]);
        }
        if b != i {
            assert(after[b] == timings[back(b)]);
        }
    }
}

// ---------------------------------------------------------------------------
// Progress.

/// How far a scan is.
#[derive(Debug)]
pub struct ScanProgress {
    pub scan_id: String,
    pub status: ScanStatus,
    pub phase: ScanPhase,
    pub stage: String,
    pub files_examined: u64,
    pub artifacts_found: u64,
    pub records_scanned: u64,
    pub candidates_surfaced: u64,
    pub validated_hits: u64,
    pub named_hits: u64,
    pub carved_hits: u64,
    pub fragment_hits: u64,
    pub verified_hits: u64,
    pub recoverable_hits: u64,
    pub bytes_scanned: u64,
    pub eta_seconds: Option<u64>,
    pub target_sla_seconds: u64,
    pub raw_evidence_state: RawEvidenceState,
    pub message: String,
    pub stage_timing_ms: StageTimings,
    pub started_at: String,
    pub last_progress_at: String,
    pub updated_at: String,
}

/// What a progress says.
pub struct ProgressView {
    pub scan_id: Seq<char>,
    pub status: ScanStatus,
    pub phase: ScanPhase,
    pub stage: Seq<char>,
    pub files_examined: u64,
    pub artifacts_found: u64,
    pub records_scanned: u64,
    pub candidates_surfaced: u64,
    pub validated_hits: u64,
    pub named_hits: u64,
    pub carved_hits: u64,
    pub fragment_hits: u64,
    pub verified_hits: u64,
    pub recoverable_hits: u64,
    pub bytes_scanned: u64,
    pub eta_seconds: Option<u64>,
    pub target_sla_seconds: u64,
    pub raw_evidence_state: RawEvidenceState,
    pub message: Seq<char>,
    pub stage_timing_ms: Seq<(Seq<char>, u64)>,
    pub started_at: Seq<char>,
    pub last_progress_at: Seq<char>,
    pub updated_at: Seq<char>,
}

impl View for ScanProgress {
    type V = ProgressView;

    open spec fn view(&self) -> ProgressView {
        ProgressView {
            scan_id: self.scan_id@,
            status: self.status,
            phase: self.phase,
            stage: self.stage@,
            files_examined: self.files_examined,
            artifacts_found: self.artifacts_found,
            records_scanned: self.records_scanned,
            candidates_surfaced: self.candidates_surfaced,
            validated_hits: self.validated_hits,
            named_hits: self.named_hits,
            carved_hits: self.carved_hits,
            fragment_hits: self.fragment_hits,
            verified_hits: self.verified_hits,
            recoverable_hits: self.recoverable_hits,
            bytes_scanned: self.bytes_scanned,
            eta_seconds: self.eta_seconds,
            target_sla_seconds: self.target_sla_seconds,
            raw_evidence_state: self.raw_evidence_state,
            message: self.message@,
            stage_timing_ms: self.stage_timing_ms@,
            started_at: self.started_at@,
            last_progress_at: self.last_progress_at@,
            updated_at: self.updated_at@,
        }
    }
}

/// The progress of a scan that begins.
pub open spec fn first_progress(
    scan_id: Seq<char>,
    mode: ScanMode,
    stage: Seq<char>,
    message: Seq<char>,
    now: Seq<char>,
) -> ProgressView {
    ProgressView {
        scan_id,
        status: ScanStatus::Running,
        phase: ScanPhase::Preparing,
        stage,
        files_examined: 0,
        artifacts_found: 0,
        records_scanned: 0,
        candidates_surfaced: 0,
        validated_hits: 0,
        named_hits: 0,
        carved_hits: 0,
        fragment_hits: 0,
        verified_hits: 0,
        recoverable_hits: 0,
        bytes_scanned: 0,
        eta_seconds: None,
        target_sla_seconds: if mode == ScanMode::Fast {
            120
        } else {
            600
        },
        raw_evidence_state: RawEvidenceState::NotStarted,
        message,
        stage_timing_ms: seq![],
        started_at: now,
        last_progress_at: now,
        updated_at: now,
    }
}

impl ScanProgress {
    /// The progress of a scan that begins.
    pub fn starting(
        scan_id: &str,
        mode: ScanMode,
        stage: &str,
        message: String,
        now: &str,
    ) -> (r: Self)
        ensures
            r@ == first_progress(scan_id@, mode, stage@, message@, now@),
    {
        ScanProgress {
            scan_id: owned(scan_id),
            status: ScanStatus::Running,
            phase: ScanPhase::Preparing,
            stage: owned(stage),
            files_examined: 0,
            artifacts_found: 0,
            records_scanned: 0,
            candidates_surfaced: 0,
            validated_hits: 0,
            named_hits: 0,
            carved_hits: 0,
            fragment_hits: 0,
            verified_hits: 0,
            recoverable_hits: 0,
            bytes_scanned: 0,
            eta_seconds: None,
            target_sla_seconds: if mode == ScanMode::Fast {
                120
            } else {
                600
            },
            raw_evidence_state: RawEvidenceState::NotStarted,
            message,
            stage_timing_ms: StageTimings::new(),
            started_at: owned(now),
            last_progress_at: owned(now),
            updated_at: owned(now),
        }
    }
}

/// The progress before any scan.
pub open spec fn idle_progress(started: Seq<char>, reported: Seq<char>, updated: Seq<char>) -> ProgressView {
    ProgressView {
        status: ScanStatus::Idle,
        target_sla_seconds: 40,
        started_at: started,
        last_progress_at: reported,
        updated_at: updated,
        ..first_progress(seq![], ScanMode::Fast, "prepare"@, "Waiting for scan"@, started)
    }
}

impl Default for ScanProgress {
    /// The progress before any scan, with the current time.
    fn default() -> (r: Self)
        ensures
            r@ == idle_progress(r@.started_at, r@.last_progress_at, r@.updated_at),
            exists|nanos: i128| r@.started_at == #[trigger] iso_text(nanos),
            exists|nanos: i128| r@.last_progress_at == #[trigger] iso_text(nanos),
            exists|nanos: i128| r@.updated_at == #[trigger] iso_text(nanos),
    {
        let now = now_iso();
        let mut progress = ScanProgress::starting(
            "",
            ScanMode::Fast,
            "prepare",
            owned("Waiting for scan"),
            now.as_str(),
        );
        progress.status = ScanStatus::Idle;
        progress.target_sla_seconds = 40;
        progress.last_progress_at = now_iso();
        progress.updated_at = now_iso();
        proof {
            reveal_strlit("");
            assert(""@ =~= Seq::<char>::empty());
        }
        progress
    }
}

/// A progress that enters a stage.
pub open spec fn staged(
    p: ProgressView,
    phase: ScanPhase,
    stage: Seq<char>,
    message: Seq<char>,
    finished: Seq<char>,
    millis: u64,
    now: Seq<char>,
) -> ProgressView {
    ProgressView {
        phase,
        stage,
        message,
        stage_timing_ms: with_timing(p.stage_timing_ms, finished, millis),
        updated_at: now,
        last_progress_at: now,
        ..p
    }
}

fn enter_stage(
    progress: &mut ScanProgress,
    phase: ScanPhase,
    stage: &str,
    message: &str,
    finished: &str,
    millis: u64,
    now: &str,
)
    ensures
        final(progress)@ == staged(
            old(progress)@,
            phase,
            stage@,
            message@,
            finished@,
            millis,
            now@,
        ),
{
    progress.phase = phase;
    progress.stage = owned(stage);
    progress.message = owned(message);
    progress.stage_timing_ms.note_stage_completion(finished, millis);
    progress.updated_at = owned(now);
    progress.last_progress_at = owned(now);
}

// ---------------------------------------------------------------------------
// Hits.

/// How many of the results that were shown are of each sort.
#[derive(Debug, Clone, Copy, PartialEq, Eq, Structural)]
pub struct HitCounts {
    pub visible: u64,
    pub validated: u64,
    pub named: u64,
    pub carved: u64,
    pub fragments: u64,
    pub recoverable: u64,
}

pub open spec fn capped_sum(a: u64, b: nat) -> u64 {
    if a + b > u64::MAX {
        u64::MAX
    } else {
        (a + b) as u64
    }
}

/// The counts with those of some more results.
pub open spec fn plus_hits(h: HitCounts, batch: Seq<ArtifactView>) -> HitCounts {
    HitCounts {
        visible: capped_sum(h.visible, batch.len()),
        validated: capped_sum(h.validated, count_if(batch, is_validated())),
        named: capped_sum(h.named, count_if(batch, has_name())),
        carved: capped_sum(h.carved, count_if(batch, is_carved())),
        fragments: capped_sum(h.fragments, count_if(batch, is_fragment())),
        recoverable: capped_sum(h.recoverable, count_if(batch, is_recoverable())),
    }
}

pub open spec fn no_hits() -> HitCounts {
    HitCounts { visible: 0, validated: 0, named: 0, carved: 0, fragments: 0, recoverable: 0 }
}

impl HitCounts {
    pub fn none() -> (r: Self)
        ensures
            r == no_hits(),
    {
        HitCounts { visible: 0, validated: 0, named: 0, carved: 0, fragments: 0, recoverable: 0 }
    }

    pub fn plus(&self, batch: &Vec<ArtifactRecord>) -> (r: Self)
        ensures
            r == plus_hits(*self, record_views(batch@)),
    {
        HitCounts {
            visible: self.visible.saturating_add(batch.len() as u64),
            validated: self.validated.saturating_add(count_validated_hits(batch)),
            named: self.named.saturating_add(count_named_hits(batch)),
            carved: self.carved.saturating_add(count_carved_hits(batch)),
            fragments: self.fragments.saturating_add(count_fragment_hits(batch)),
            recoverable: self.recoverable.saturating_add(count_recoverable_hits(batch)),
        }
    }
}

/// A progress that shows some counts.
pub open spec fn with_hits_shown(p: ProgressView, h: HitCounts) -> ProgressView {
    ProgressView {
        candidates_surfaced: h.visible,
        validated_hits: h.validated,
        named_hits: h.named,
        carved_hits: h.carved,
        fragment_hits: h.fragments,
        verified_hits: h.validated,
        recoverable_hits: h.recoverable,
        artifacts_found: h.validated,
        ..p
    }
}

fn show_hits(progress: &mut ScanProgress, hits: HitCounts)
    ensures
        final(progress)@ == with_hits_shown(old(progress)@, hits),
{
    progress.candidates_surfaced = hits.visible;
    progress.validated_hits = hits.validated;
    progress.named_hits = hits.named;
    progress.carved_hits = hits.carved;
    progress.fragment_hits = hits.fragments;
    progress.verified_hits = hits.validated;
    progress.recoverable_hits = hits.recoverable;
    progress.artifacts_found = hits.validated;
}

/// A progress that shows how much has been read.
pub open spec fn with_reach(
    p: ProgressView,
    files: u64,
    records: u64,
    bytes: u64,
    message: Seq<char>,
    now: Seq<char>,
) -> ProgressView {
    ProgressView {
        files_examined: files,
        records_scanned: records,
        bytes_scanned: bytes,
        message,
        updated_at: now,
        last_progress_at: now,
        ..p
    }
}

fn show_reach(
    progress: &mut ScanProgress,
    files: u64,
    records: u64,
    bytes: u64,
    message: String,
    now: &str,
)
    ensures
        final(progress)@ == with_reach(old(progress)@, files, records, bytes, message@, now@),
{
    progress.files_examined = files;
    progress.records_scanned = records;
    progress.bytes_scanned = bytes;
    progress.message = message;
    progress.updated_at = owned(now);
    progress.last_progress_at = owned(now);
}

pub open spec fn larger(a: u64, b: u64) -> u64 {
    if a > b {
        a
    } else {
        b
    }
}

fn max_of(a: u64, b: u64) -> (r: u64)
    ensures
        r == larger(a, b),
{
    if a > b {
        a
    } else {
        b
    }
}

// ---------------------------------------------------------------------------
// Messages.

pub open spec fn ntfs_message(
    h: HitCounts,
    done: u64,
    found: usize,
    rate: Seq<char>,
) -> Seq<char> {
    "NTFS MFT pass: "@ + decimal(h.visible as nat) + " candidates, "@ + decimal(
        h.validated as nat,
    ) + " validated, "@ + decimal(h.named as nat) + " named from "@ + decimal(done as nat)
        + " records ("@ + decimal(found as nat) + " raw, "@ + rate + " rec/s)"@
}

fn ntfs_text(h: HitCounts, done: u64, found: usize, rate: &str) -> (r: String)
    ensures
        r@ == ntfs_message(h, done, found, rate@),
{
    let mut out = owned("NTFS MFT pass: ");
    push_decimal(&mut out, h.visible);
    out.append(" candidates, ");
    push_decimal(&mut out, h.validated);
    out.append(" validated, ");
    push_decimal(&mut out, h.named);
    out.append(" named from ");
    push_decimal(&mut out, done);
    out.append(" records (");
    push_decimal(&mut out, found as u64);
    out.append(" raw, ");
    out.append(rate);
    out.append(" rec/s)");
    out
}

pub open spec fn fat_message(h: HitCounts, rate: Seq<char>) -> Seq<char> {
    "FAT directory pass: "@ + decimal(h.visible as nat) + " candidates, "@ + decimal(
        h.validated as nat,
    ) + " validated, "@ + decimal(h.named as nat) + " named ("@ + rate + " entries/s)"@
}

fn fat_text(h: HitCounts, rate: &str) -> (r: String)
    ensures
        r@ == fat_message(h, rate@),
{
    let mut out = owned("FAT directory pass: ");
    push_decimal(&mut out, h.visible);
    out.append(" candidates, ");
    push_decimal(&mut out, h.validated);
    out.append(" validated, ");
    push_decimal(&mut out, h.named);
    out.append(" named (");
    out.append(rate);
    out.append(" entries/s)");
    out
}

pub open spec fn carve_message(done: u64, carved: u64, validated: u64) -> Seq<char> {
    "Carve pass: "@ + decimal(done as nat) + " bytes scanned, "@ + decimal(carved as nat)
        + " carved, "@ + decimal(validated as nat) + " validated total"@
}

fn carve_text(done: u64, carved: u64, validated: u64) -> (r: String)
    ensures
        r@ == carve_message(done, carved, validated),
{
    let mut out = owned("Carve pass: ");
    push_decimal(&mut out, done);
    out.append(" bytes scanned, ");
    push_decimal(&mut out, carved);
    out.append(" carved, ");
    push_decimal(&mut out, validated);
    out.append(" validated total");
    out
}

pub open spec fn complete_message(validated: nat, named: nat, recoverable: nat) -> Seq<char> {
    "Scan complete: "@ + decimal(validated) + " validated, "@ + decimal(named) + " named, "@
        + decimal(recoverable) + " recoverable deleted files ready"@
}

fn complete_text(validated: u64, named: u64, recoverable: u64) -> (r: String)
    ensures
        r@ == complete_message(validated as nat, named as nat, recoverable as nat),
{
    let mut out = owned("Scan complete: ");
    push_decimal(&mut out, validated);
    out.append(" validated, ");
    push_decimal(&mut out, named);
    out.append(" named, ");
    push_decimal(&mut out, recoverable);
    out.append(" recoverable deleted files ready");
    out
}

pub open spec fn cancelled_message(validated: nat, named: nat) -> Seq<char> {
    "Scan cancelled: "@ + decimal(validated) + " validated, "@ + decimal(named)
        + " named deleted files captured"@
}

fn cancelled_text(validated: u64, named: u64) -> (r: String)
    ensures
        r@ == cancelled_message(validated as nat, named as nat),
{
    let mut out = owned("Scan cancelled: ");
    push_decimal(&mut out, validated);
    out.append(" validated, ");
    push_decimal(&mut out, named);
    out.append(" named deleted files captured");
    out
}

// ---------------------------------------------------------------------------
// The course of a scan.

/// What is read of the file system before free space is carved.
#[derive(Debug, Clone, Copy, PartialEq, Eq, Structural)]
pub enum MetadataPass {
    MasterFileTable,
    FatDirectories,
    Nothing,
}

/// A scan on its way.
#[derive(Debug)]
pub struct ScanRun {
    pub progress: ScanProgress,
    pub warnings: Vec<String>,
    pub include_low_confidence: bool,
    pub hits: HitCounts,
    pub files_examined: u64,
    pub metadata_bytes: u64,
    pub carve_bytes: u64,
    pub processed: usize,
    pub carved: HitCounts,
    pub carved_processed: usize,
}

/// What a scan on its way says.
pub struct RunView {
    pub progress: ProgressView,
    pub warnings: Seq<Seq<char>>,
    pub include_low_confidence: bool,
    pub hits: HitCounts,
    pub files_examined: u64,
    pub metadata_bytes: u64,
    pub carve_bytes: u64,
    pub processed: usize,
    pub carved: HitCounts,
    pub carved_processed: usize,
}

impl View for ScanRun {
    type V = RunView;

    open spec fn view(&self) -> RunView {
        RunView {
            progress: self.progress@,
            warnings: views(self.warnings@),
            include_low_confidence: self.include_low_confidence,
            hits: self.hits,
            files_examined: self.files_examined,
            metadata_bytes: self.metadata_bytes,
            carve_bytes: self.carve_bytes,
            processed: self.processed,
            carved: self.carved,
            carved_processed: self.carved_processed,
        }
    }
}

/// What a scan has found when it ends.
#[derive(Debug)]
pub struct ScanExecution {
    pub progress: ScanProgress,
    pub results: Vec<ArtifactRecord>,
    pub warnings: Vec<String>,
    pub counters: ScanCounters,
}

pub open spec fn warned(s: RunView, warning: Seq<char>) -> RunView {
    RunView { warnings: s.warnings.push(warning), ..s }
}

pub open spec fn metadata_warning(filesystem: FileSystemKind) -> Option<Seq<char>> {
    match filesystem {
        FileSystemKind::ExFat => Some(
            "exFAT metadata recovery is not yet implemented; only carved artifacts will be available in Deep mode."@,
        ),
        FileSystemKind::Unknown => Some(
            "Unknown filesystem: deleted-entry parsing skipped, falling back to carving only."@,
        ),
        _ => None,
    }
}

/// What is read of a file system.
pub open spec fn pass_of(filesystem: FileSystemKind) -> MetadataPass {
    match filesystem {
        FileSystemKind::Ntfs => MetadataPass::MasterFileTable,
        FileSystemKind::Fat32 => MetadataPass::FatDirectories,
        _ => MetadataPass::Nothing,
    }
}

/// The scan with the warning that a file system gives, where it gives one.
pub open spec fn warned_of(s: RunView, filesystem: FileSystemKind) -> RunView {
    match metadata_warning(filesystem) {
        Some(warning) => warned(s, warning),
        None => s,
    }
}

pub open spec fn bitmap_warning(error: Seq<char>) -> Seq<char> {
    "Allocation bitmap could not be loaded: "@ + error + ". Recoverability will be less precise."@
}

pub open spec fn late_bitmap_warning(error: Seq<char>) -> Seq<char> {
    "Allocation bitmap could not be loaded before carve pass: "@ + error
        + ". Recoverability will remain approximate."@
}

pub open spec fn entries_warning(pass: MetadataPass, error: Seq<char>) -> Seq<char> {
    (if pass == MetadataPass::FatDirectories {
        "FAT"@
    } else {
        "NTFS"@
    }) + " deleted-entry scan could not start: "@ + error
        + ". Continuing with carving and other available sources."@
}

pub open spec fn carve_warning(error: Seq<char>) -> Seq<char> {
    "High-priority carve pass failed: "@ + error + ". Continuing with metadata results only."@
}

pub open spec fn no_carve_warning() -> Seq<char> {
    "High-priority carve pass skipped because the allocation bitmap is unavailable."@
}

/// The scan when the free space is read.
pub open spec fn loading_bitmap(s: RunView, millis: u64, now: Seq<char>) -> RunView {
    RunView {
        progress: staged(
            s.progress,
            ScanPhase::DiscoveringMetadata,
            "loading_bitmap"@,
            "Loading volume metadata and allocation bitmap"@,
            "preparing"@,
            millis,
            now,
        ),
        ..s
    }
}

/// The scan when the deleted entries are read.
pub open spec fn enumerating(s: RunView, millis: u64, now: Seq<char>) -> RunView {
    RunView {
        progress: staged(
            s.progress,
            ScanPhase::ScanningDeletedEntries,
            "enumerating_deleted_entries"@,
            "Enumerating deleted filesystem entries"@,
            "loading_bitmap"@,
            millis,
            now,
        ),
        ..s
    }
}

/// The scan when free space is carved.
pub open spec fn carving(s: RunView, mode: ScanMode, millis: u64, now: Seq<char>) -> RunView {
    RunView {
        progress: staged(
            s.progress,
            ScanPhase::CarvingHighPriority,
            "carving_high_priority"@,
            carve_stage_message(mode),
            "enumerating_deleted_entries"@,
            millis,
            now,
        ),
        ..s
    }
}

/// How much free space a scan carves.
pub open spec fn budget_of(s: RunView, options: ScanOptions) -> Option<u64> {
    if options.mode == ScanMode::Fast {
        Some(
            fast_budget(
                match options.carve_budget_bytes {
                    Some(budget) => budget,
                    None => FAST_MODE_CARVE_BUDGET,
                },
                s.hits.visible,
                s.hits.named,
                s.hits.recoverable,
            ),
        )
    } else {
        options.carve_budget_bytes
    }
}

/// Results that were held against the free space of their volume.
pub open spec fn held_against(
    bitmap: VolumeBitmap,
    filesystem: FileSystemKind,
    results: Seq<ArtifactRecord>,
) -> Seq<ArtifactRecord> {
    if filesystem == FileSystemKind::Ntfs {
        results.map_values(|a: ArtifactRecord| refreshed(bitmap, a))
    } else {
        results
    }
}

/// Whether a scan carves free space.
pub open spec fn carves(source: ScanSource, options: ScanOptions) -> bool {
    options.mode == ScanMode::Deep || fast_carve_wanted(source, options)
}

/// After a batch of results of the file table.
pub open spec fn after_ntfs_batch(
    s: RunView,
    done: u64,
    found: usize,
    batch: Seq<ArtifactView>,
    rate: Seq<char>,
    now: Seq<char>,
) -> RunView {
    let files = larger(s.files_examined, done);
    let bytes = capped_product(files, NTFS_METADATA_RECORD_BYTES);
    let hits = plus_hits(s.hits, batch);
    RunView {
        files_examined: files,
        metadata_bytes: bytes,
        hits,
        progress: with_reach(
            with_hits_shown(s.progress, hits),
            files,
            done,
            capped_sum(bytes, s.carve_bytes as nat),
            ntfs_message(hits, done, found, rate),
            now,
        ),
        ..s
    }
}

/// After a batch of results of FAT directories.
pub open spec fn after_fat_batch(
    s: RunView,
    count: usize,
    batch: Seq<ArtifactView>,
    rate: Seq<char>,
    now: Seq<char>,
) -> RunView {
    let files = larger(s.files_examined, count as u64);
    let bytes = capped_product(files, FAT_DIRECTORY_ENTRY_BYTES);
    let hits = plus_hits(s.hits, batch);
    RunView {
        processed: count,
        files_examined: files,
        metadata_bytes: bytes,
        hits,
        progress: with_reach(
            with_hits_shown(s.progress, hits),
            files,
            files,
            capped_sum(bytes, s.carve_bytes as nat),
            fat_message(hits, rate),
            now,
        ),
        ..s
    }
}

/// The counts of a scan that carves: those of the file system and the carved ones. Every carved
/// result that is shown counts as carved.
pub open spec fn joined_hits(kept: nat, h: HitCounts, carved: HitCounts) -> HitCounts {
    HitCounts {
        visible: capped_sum(carved.visible, kept),
        validated: capped_sum(h.validated, carved.validated as nat),
        named: capped_sum(h.named, carved.named as nat),
        carved: capped_sum(h.carved, carved.visible as nat),
        fragments: capped_sum(h.fragments, carved.fragments as nat),
        recoverable: capped_sum(h.recoverable, carved.recoverable as nat),
    }
}

/// After a batch of carved results.
pub open spec fn after_carve_batch(
    s: RunView,
    done: u64,
    kept: nat,
    count: usize,
    batch: Seq<ArtifactView>,
    now: Seq<char>,
) -> RunView {
    let carved = plus_hits(s.carved, batch);
    let hits = joined_hits(kept, s.hits, carved);
    RunView {
        carve_bytes: done,
        carved,
        carved_processed: count,
        progress: with_reach(
            with_hits_shown(s.progress, hits),
            s.progress.files_examined,
            s.progress.records_scanned,
            capped_sum(s.metadata_bytes, done as nat),
            carve_message(done, carved.visible, hits.validated),
            now,
        ),
        ..s
    }
}

/// The reach of a scan never shrinks.
pub open spec fn reach_kept(s: RunView) -> RunView {
    RunView {
        progress: ProgressView {
            files_examined: larger(s.files_examined, s.progress.files_examined),
            bytes_scanned: larger(
                capped_sum(s.metadata_bytes, s.carve_bytes as nat),
                s.progress.bytes_scanned,
            ),
            ..s.progress
        },
        ..s
    }
}

/// A progress that shows the counts of all results.
pub open spec fn with_results_shown(p: ProgressView, results: Seq<ArtifactView>) -> ProgressView {
    with_hits_shown(p, plus_hits(no_hits(), results))
}

/// The progress of a scan that was cancelled.
pub open spec fn cancelled_progress(
    p: ProgressView,
    results: Seq<ArtifactView>,
    now: Seq<char>,
) -> ProgressView {
    let shown = with_results_shown(p, results);
    ProgressView {
        status: ScanStatus::Cancelled,
        phase: ScanPhase::Finalizing,
        stage: "cancelled"@,
        message: cancelled_message(shown.validated_hits as nat, shown.named_hits as nat),
        updated_at: now,
        last_progress_at: now,
        ..shown
    }
}

/// The progress of a scan that went to its end.
pub open spec fn finished_progress(
    s: RunView,
    results: Seq<ArtifactView>,
    last_stage: Seq<char>,
    millis: u64,
    whole: u64,
    now: Seq<char>,
) -> ProgressView {
    let reached = reach_kept(s).progress;
    let shown = with_results_shown(reached, results);
    let timings = with_timing(shown.stage_timing_ms, last_stage, millis);
    ProgressView {
        phase: ScanPhase::Finalizing,
        stage: "finalizing"@,
        status: if s.warnings.len() == 0 {
            ScanStatus::Completed
        } else {
            ScanStatus::CompletedWithWarnings
        },
        eta_seconds: Some(0u64),
        stage_timing_ms: with_timing(
            timings,
            "finalizing"@,
            if total_millis(timings) < whole {
                (whole - total_millis(timings)) as u64
            } else {
                0
            },
        ),
        message: complete_message(
            shown.validated_hits as nat,
            shown.named_hits as nat,
            shown.recoverable_hits as nat,
        ),
        updated_at: now,
        last_progress_at: now,
        ..shown
    }
}

pub open spec fn last_stage_name(should_carve: bool) -> Seq<char> {
    if should_carve {
        "carving_high_priority"@
    } else {
        "enumerating_deleted_entries"@
    }
}

pub open spec fn carve_stage_message(mode: ScanMode) -> Seq<char> {
    if mode == ScanMode::Deep {
        "Scanning high-priority signatures in unallocated space"@
    } else {
        "Fast-mode carve: checking unallocated space for recoverable signatures"@
    }
}

fn show_results(progress: &mut ScanProgress, results: &Vec<ArtifactRecord>)
    ensures
        final(progress)@ == with_results_shown(old(progress)@, record_views(results@)),
{
    let hits = HitCounts::none().plus(results);
    show_hits(progress, hits);
}

fn cancel_progress(progress: &mut ScanProgress, results: &Vec<ArtifactRecord>, now: &str)
    ensures
        final(progress)@ == cancelled_progress(old(progress)@, record_views(results@), now@),
{
    show_results(progress, results);
    progress.status = ScanStatus::Cancelled;
    progress.phase = ScanPhase::Finalizing;
    progress.stage = owned("cancelled");
    progress.message = cancelled_text(progress.validated_hits, progress.named_hits);
    progress.updated_at = owned(now);
    progress.last_progress_at = owned(now);
}

/// Ends a scan that was cancelled.
pub fn cancelled_execution(
    progress: ScanProgress,
    results: Vec<ArtifactRecord>,
    warnings: Vec<String>,
    now: &str,
) -> (r: ScanExecution)
    ensures
        stable_sorted(results@, r.results@, shown_order()),
        r.progress@ == cancelled_progress(progress@, record_views(r.results@), now@),
        r.warnings@ == warnings@,
        r.counters == counters_of(record_views(r.results@)),
{
    let results = sort_results(results);
    let counters = collect_counters(&results);
    let mut progress = progress;
    cancel_progress(&mut progress, &results, now);
    ScanExecution { progress, results, warnings, counters }
}

/// A scan that begins.
pub open spec fn begun(
    scan_id: Seq<char>,
    source: ScanSource,
    options: ScanOptions,
    now: Seq<char>,
) -> RunView {
    RunView {
        progress: first_progress(
            scan_id,
            options.mode,
            "preparing"@,
            "Preparing scan for "@ + source.display_name@,
            now,
        ),
        warnings: seq![],
        include_low_confidence: options.include_low_confidence,
        hits: no_hits(),
        files_examined: 0,
        metadata_bytes: 0,
        carve_bytes: 0,
        processed: 0,
        carved: no_hits(),
        carved_processed: 0,
    }
}

impl ScanRun {
    /// A scan that begins.
    pub fn begin(scan_id: &str, source: &ScanSource, options: &ScanOptions, now: &str) -> (r: Self)
        ensures
            r@ == begun(scan_id@, *source, *options, now@),
    {
        let r = ScanRun {
            progress: ScanProgress::starting(
                scan_id,
                options.mode,
                "preparing",
                concat2("Preparing scan for ", source.display_name.as_str()),
                now,
            ),
            warnings: Vec::new(),
            include_low_confidence: options.include_low_confidence,
            hits: HitCounts::none(),
            files_examined: 0,
            metadata_bytes: 0,
            carve_bytes: 0,
            processed: 0,
            carved: HitCounts::none(),
            carved_processed: 0,
        };
        assert(views(r.warnings@) =~= seq![]);
        r
    }

    /// Adds a warning.
    pub fn warn(&mut self, warning: String)
        ensures
            final(self)@ == warned(old(self)@, warning@),
    {
        self.warnings.push(warning);
        assert(views(self.warnings@) =~= views(old(self).warnings@).push(warning@));
    }

    /// The free space of the volume is read.
    pub fn load_bitmap_stage(&mut self, millis: u64, now: &str)
        ensures
            final(self)@ == loading_bitmap(old(self)@, millis, now@),
    {
        enter_stage(
            &mut self.progress,
            ScanPhase::DiscoveringMetadata,
            "loading_bitmap",
            "Loading volume metadata and allocation bitmap",
            "preparing",
            millis,
            now,
        );
    }

    /// The free space could not be read before the deleted entries.
    pub fn bitmap_unavailable(&mut self, error: &str)
        ensures
            final(self)@ == warned(old(self)@, bitmap_warning(error@)),
    {
        self.warn(
            concat3(
                "Allocation bitmap could not be loaded: ",
                error,
                ". Recoverability will be less precise.",
            ),
        );
    }

    /// The deleted entries are read.
    pub fn enumerate_stage(&mut self, millis: u64, now: &str)
        ensures
            final(self)@ == enumerating(old(self)@, millis, now@),
    {
        enter_stage(
            &mut self.progress,
            ScanPhase::ScanningDeletedEntries,
            "enumerating_deleted_entries",
            "Enumerating deleted filesystem entries",
            "loading_bitmap",
            millis,
            now,
        );
    }

    /// What is read of a file system; a file system that cannot be read gives a warning.
    pub fn metadata_pass(&mut self, filesystem: FileSystemKind) -> (r: MetadataPass)
        ensures
            r == pass_of(filesystem),
            final(self)@ == warned_of(old(self)@, filesystem),
    {
        match filesystem {
            FileSystemKind::Ntfs => MetadataPass::MasterFileTable,
            FileSystemKind::Fat32 => MetadataPass::FatDirectories,
            FileSystemKind::ExFat => {
                self.warn(
                    owned(
                        "exFAT metadata recovery is not yet implemented; only carved artifacts will be available in Deep mode.",
                    ),
                );
                MetadataPass::Nothing
            },
            FileSystemKind::Unknown => {
                self.warn(
                    owned(
                        "Unknown filesystem: deleted-entry parsing skipped, falling back to carving only.",
                    ),
                );
                MetadataPass::Nothing
            },
        }
    }

    /// Takes the results of the file table from a place on; gives those that are shown.
    pub fn ntfs_batch(
        &mut self,
        done: u64,
        results: &Vec<ArtifactRecord>,
        from: usize,
        rate: &str,
        now: &str,
    ) -> (r: Vec<ArtifactRecord>)
        requires
            from <= results@.len(),
        ensures
            record_views(r@) == visible_batch(
                results@,
                from as int,
                old(self).include_low_confidence,
            ),
            final(self)@ == after_ntfs_batch(
                old(self)@,
                done,
                results@.len() as usize,
                record_views(r@),
                rate@,
                now@,
            ),
    {
        let batch = filtered_results_batch(results, from, self.include_low_confidence);
        self.files_examined = max_of(self.files_examined, done);
        self.metadata_bytes = capped_mul(self.files_examined, NTFS_METADATA_RECORD_BYTES);
        self.hits = self.hits.plus(&batch);
        let message = ntfs_text(self.hits, done, results.len(), rate);
        let bytes: u64 = self.metadata_bytes.saturating_add(self.carve_bytes);
        show_hits(&mut self.progress, self.hits);
        show_reach(&mut self.progress, self.files_examined, done, bytes, message, now);
        batch
    }

    /// Takes all results of FAT directories so far; gives the new ones that are shown.
    pub fn fat_batch(&mut self, results: &Vec<ArtifactRecord>, rate: &str, now: &str) -> (r: Vec<
        ArtifactRecord,
    >)
        requires
            old(self).processed <= results@.len(),
        ensures
            record_views(r@) == visible_batch(
                results@,
                old(self).processed as int,
                old(self).include_low_confidence,
            ),
            final(self)@ == after_fat_batch(
                old(self)@,
                results@.len() as usize,
                record_views(r@),
                rate@,
                now@,
            ),
    {
        let batch = filtered_results_batch(results, self.processed, self.include_low_confidence);
        let count: usize = results.len();
        self.processed = count;
        self.files_examined = max_of(self.files_examined, count as u64);
        self.metadata_bytes = capped_mul(self.files_examined, FAT_DIRECTORY_ENTRY_BYTES);
        self.hits = self.hits.plus(&batch);
        let message = fat_text(self.hits, rate);
        let bytes: u64 = self.metadata_bytes.saturating_add(self.carve_bytes);
        show_hits(&mut self.progress, self.hits);
        show_reach(
            &mut self.progress,
            self.files_examined,
            self.files_examined,
            bytes,
            message,
            now,
        );
        batch
    }

    /// The deleted entries could not be read.
    pub fn metadata_failed(&mut self, pass: MetadataPass, error: &str)
        ensures
            final(self)@ == warned(old(self)@, entries_warning(pass, error@)),
    {
        let mut warning = owned(
            if pass == MetadataPass::FatDirectories {
                "FAT"
            } else {
                "NTFS"
            },
        );
        warning.append(" deleted-entry scan could not start: ");
        warning.append(error);
        warning.append(". Continuing with carving and other available sources.");
        self.warn(warning);
    }

    /// All deleted entries have been read.
    pub fn metadata_finished(&mut self, results: Vec<ArtifactRecord>) -> (r: Vec<ArtifactRecord>)
        ensures
            r@ == kept(results@, visible(old(self).include_low_confidence)),
            final(self)@ == reach_kept(old(self)@),
    {
        self.keep_reach();
        filter_scan_results(results, self.include_low_confidence)
    }

    fn keep_reach(&mut self)
        ensures
            final(self)@ == reach_kept(old(self)@),
            final(self).warnings == old(self).warnings,
    {
        self.progress.files_examined = max_of(self.files_examined, self.progress.files_examined);
        self.progress.bytes_scanned =
        max_of(self.metadata_bytes.saturating_add(self.carve_bytes), self.progress.bytes_scanned);
    }

    /// The free space was read only before carving: what was found is held against it.
    pub fn late_bitmap(
        &self,
        filesystem: FileSystemKind,
        bitmap: &VolumeBitmap,
        results: Vec<ArtifactRecord>,
    ) -> (r: Vec<ArtifactRecord>)
        requires
            bitmap.wf(),
        ensures
            r@ == held_against(*bitmap, filesystem, results@),
    {
        let mut results = results;
        if filesystem == FileSystemKind::Ntfs {
            let ghost before = results@;
            refresh_recoverability(bitmap, &mut results);
            assert(results@ =~= before.map_values(|a: ArtifactRecord| refreshed(*bitmap, a)));
        }
        results
    }

    /// The free space could not be read before carving.
    pub fn late_bitmap_unavailable(&mut self, error: &str)
        ensures
            final(self)@ == warned(old(self)@, late_bitmap_warning(error@)),
    {
        self.warn(
            concat3(
                "Allocation bitmap could not be loaded before carve pass: ",
                error,
                ". Recoverability will remain approximate.",
            ),
        );
    }

    /// Free space is carved.
    pub fn carve_stage(&mut self, mode: ScanMode, millis: u64, now: &str)
        ensures
            final(self)@ == carving(old(self)@, mode, millis, now@),
    {
        enter_stage(
            &mut self.progress,
            ScanPhase::CarvingHighPriority,
            "carving_high_priority",
            if mode == ScanMode::Deep {
                "Scanning high-priority signatures in unallocated space"
            } else {
                "Fast-mode carve: checking unallocated space for recoverable signatures"
            },
            "enumerating_deleted_entries",
            millis,
            now,
        );
    }

    /// How much free space is carved.
    pub fn carve_budget(&self, options: &ScanOptions) -> (r: Option<u64>)
        ensures
            r == budget_of(self@, *options),
    {
        if options.mode == ScanMode::Fast {
            let baseline: u64 = match options.carve_budget_bytes {
                Some(budget) => budget,
                None => FAST_MODE_CARVE_BUDGET,
            };
            Some(
                adaptive_fast_carve_budget(
                    baseline,
                    self.hits.visible,
                    self.hits.named,
                    self.hits.recoverable,
                ),
            )
        } else {
            options.carve_budget_bytes
        }
    }

    /// Takes all carved results so far; gives the new ones that are shown.
    pub fn carve_batch(
        &mut self,
        done: u64,
        kept_results: usize,
        carved: &Vec<ArtifactRecord>,
        now: &str,
    ) -> (r: Vec<ArtifactRecord>)
        requires
            old(self).carved_processed <= carved@.len(),
        ensures
            record_views(r@) == visible_batch(
                carved@,
                old(self).carved_processed as int,
                old(self).include_low_confidence,
            ),
            final(self)@ == after_carve_batch(
                old(self)@,
                done,
                kept_results as nat,
                carved@.len() as usize,
                record_views(r@),
                now@,
            ),
    {
        let batch = filtered_results_batch(
            carved,
            self.carved_processed,
            self.include_low_confidence,
        );
        self.carved_processed = carved.len();
        self.carved = self.carved.plus(&batch);
        self.carve_bytes = done;
        let hits = HitCounts {
            visible: self.carved.visible.saturating_add(kept_results as u64),
            validated: self.hits.validated.saturating_add(self.carved.validated),
            named: self.hits.named.saturating_add(self.carved.named),
            carved: self.hits.carved.saturating_add(self.carved.visible),
            fragments: self.hits.fragments.saturating_add(self.carved.fragments),
            recoverable: self.hits.recoverable.saturating_add(self.carved.recoverable),
        };
        let message = carve_text(done, self.carved.visible, hits.validated);
        let bytes: u64 = self.metadata_bytes.saturating_add(done);
        let files: u64 = self.progress.files_examined;
        let records: u64 = self.progress.records_scanned;
        show_hits(&mut self.progress, hits);
        show_reach(&mut self.progress, files, records, bytes, message, now);
        batch
    }

    /// All carved results have come: those that are new and shown join the others.
    pub fn carve_finished(&self, results: Vec<ArtifactRecord>, carved: Vec<ArtifactRecord>) -> (r:
        Vec<ArtifactRecord>)
        ensures
            r@ == kept(merged(results@, carved@), visible(self.include_low_confidence)),
    {
        filter_scan_results(merge_results(results, carved), self.include_low_confidence)
    }

    /// Carving failed.
    pub fn carve_failed(&mut self, error: &str)
        ensures
            final(self)@ == warned(old(self)@, carve_warning(error@)),
    {
        self.warn(
            concat3(
                "High-priority carve pass failed: ",
                error,
                ". Continuing with metadata results only.",
            ),
        );
    }

    /// Nothing was carved, for want of the free space.
    pub fn carve_skipped(&mut self)
        ensures
            final(self)@ == warned(old(self)@, no_carve_warning()),
    {
        self.warn(
            owned("High-priority carve pass skipped because the allocation bitmap is unavailable."),
        );
    }

    /// Ends a scan that was cancelled.
    pub fn cancel(self, results: Vec<ArtifactRecord>, now: &str) -> (r: ScanExecution)
        ensures
            stable_sorted(results@, r.results@, shown_order()),
            r.progress@ == cancelled_progress(
                self@.progress,
                record_views(r.results@),
                now@,
            ),
            views(r.warnings@) == self@.warnings,
            r.counters == counters_of(record_views(r.results@)),
    {
        cancelled_execution(self.progress, results, self.warnings, now)
    }

    fn finish_progress(
        &mut self,
        results: &Vec<ArtifactRecord>,
        should_carve: bool,
        millis: u64,
        whole: u64,
        now: &str,
    )
        ensures
            final(self).progress@ == finished_progress(
                old(self)@,
                record_views(results@),
                last_stage_name(should_carve),
                millis,
                whole,
                now@,
            ),
            final(self).warnings == old(self).warnings,
    {
        let clean: bool = self.warnings.len() == 0;
        assert(clean == (self@.warnings.len() == 0));
        self.keep_reach();
        show_results(&mut self.progress, results);
        self.progress.phase = ScanPhase::Finalizing;
        self.progress.stage = owned("finalizing");
        self.progress.status =
        if clean {
            ScanStatus::Completed
        } else {
            ScanStatus::CompletedWithWarnings
        };
        self.progress.eta_seconds = Some(0);
        self.progress.stage_timing_ms.note_stage_completion(
            if should_carve {
                "carving_high_priority"
            } else {
                "enumerating_deleted_entries"
            },
            millis,
        );
        let rest: u64 = self.progress.stage_timing_ms.rest_of(whole);
        self.progress.stage_timing_ms.note_stage_completion("finalizing", rest);
        self.progress.message =
        complete_text(
            self.progress.validated_hits,
            self.progress.named_hits,
            self.progress.recoverable_hits,
        );
        self.progress.updated_at = owned(now);
        self.progress.last_progress_at = owned(now);
    }

    /// Ends a scan that went to its end.
    pub fn finish(
        self,
        results: Vec<ArtifactRecord>,
        should_carve: bool,
        millis: u64,
        whole: u64,
        now: &str,
    ) -> (r: ScanExecution)
        ensures
            stable_sorted(results@, r.results@, shown_order()),
            r.progress@ == finished_progress(
                self@,
                record_views(r.results@),
                last_stage_name(should_carve),
                millis,
                whole,
                now@,
            ),
            views(r.warnings@) == self@.warnings,
            r.counters == counters_of(record_views(r.results@)),
    {
        let mut run = self;
        let results = sort_results(results);
        let counters = collect_counters(&results);
        run.finish_progress(&results, should_carve, millis, whole, now);
        ScanExecution { progress: run.progress, results, warnings: run.warnings, counters }
    }
}

/// Whether a scan carves free space.
pub fn should_carve(source: &ScanSource, options: &ScanOptions) -> (r: bool)
    ensures
        r == carves(*source, *options),
{
    options.mode == ScanMode::Deep || should_run_fast_carve(source, options)
}

// ---------------------------------------------------------------------------
// Laws.

/// A scan without warnings completes, one with warnings says so, and both are over.
pub proof fn lemma_status_tells_of_warnings(
    s: RunView,
    results: Seq<ArtifactView>,
    last_stage: Seq<char>,
    millis: u64,
    whole: u64,
    now: Seq<char>,
)
    ensures
        finished_progress(s, results, last_stage, millis, whole, now).status
            == ScanStatus::Completed <==> s.warnings.len() == 0,
        cancelled_progress(s.progress, results, now).status == ScanStatus::Cancelled,
{
}

/// Reading on never makes a scan report fewer files or hits.
pub proof fn lemma_batches_only_add(
    s: RunView,
    done: u64,
    found: usize,
    batch: Seq<ArtifactView>,
    rate: Seq<char>,
    now: Seq<char>,
)
    ensures
        ({
            let t = after_ntfs_batch(s, done, found, batch, rate, now);
            &&& t.files_examined >= s.files_examined
            &&& t.hits.visible >= s.hits.visible
            &&& t.hits.validated >= s.hits.validated
            &&& t.hits.named >= s.hits.named
            &&& t.hits.recoverable >= s.hits.recoverable
            &&& t.warnings == s.warnings
        }),
        ({
            let t = after_fat_batch(s, found, batch, rate, now);
            &&& t.files_examined >= s.files_examined
            &&& t.hits.visible >= s.hits.visible
            &&& t.hits.validated >= s.hits.validated
            &&& t.hits.named >= s.hits.named
            &&& t.hits.recoverable >= s.hits.recoverable
            &&& t.warnings == s.warnings
        }),
{
}

/// The counts of a list in two parts are those of its parts added up, as long as they fit.
pub proof fn lemma_hits_add_up(h: HitCounts, a: Seq<ArtifactView>, b: Seq<ArtifactView>)
    ensures
        plus_hits(plus_hits(h, a), b) == plus_hits(h, a + b),
{
    lemma_count_adds_up(a, b, is_validated());
    lemma_count_adds_up(a, b, has_name());
    lemma_count_adds_up(a, b, is_carved());
    lemma_count_adds_up(a, b, is_fragment());
    lemma_count_adds_up(a, b, is_recoverable());
}

proof fn lemma_count_adds_up(
    a: Seq<ArtifactView>,
    b: Seq<ArtifactView>,
    f: spec_fn(ArtifactView) -> bool,
)
    ensures
        count_if(a + b, f) == count_if(a, f) + count_if(b, f),
    decreases b.len(),
{
    if b.len() == 0 {
        assert(a + b =~= a);
    } else {
        assert((a + b).drop_last() =~= a + b.drop_last());
        lemma_count_adds_up(a, b.drop_last(), f);
    }
}

} // verus!
