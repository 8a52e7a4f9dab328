//! Refinement jobs: the background work that reads raw NTFS evidence for a finished scan.

use crate::browse_cache::{
    candidate_indices, collect_deleted_artifact_locators, locates, DeletedArtifactLocator,
};
use crate::model::{
    message_of, ArtifactRecord, AsyncJobState, FileSystemKind, RawEvidenceConfig, RawEvidenceMode,
    RawEvidenceRefinementPhase, RawEvidenceRefinementRequest, RawEvidenceState, RssError,
    ScanPhase,
};
use crate::records::{record_views, ArtifactView};
use crate::scan_run::{ProgressView, ScanProgress};
use crate::sessions::{collect_ids, ids_of, ScanSession, ScanView};
use crate::text::{clone_strings, concat2, concat4, owned, views};
use vstd::prelude::*;
use vstd::string::*;

verus! {

// ---------------------------------------------------------------------------
// Jobs.

/// How far a refinement job is.
#[derive(Debug)]
pub struct RawEvidenceRefinementProgress {
    pub job_id: String,
    pub scan_id: String,
    pub source_id: String,
    pub state: AsyncJobState,
    pub phase: RawEvidenceRefinementPhase,
    pub processed_units: u64,
    pub total_units: Option<u64>,
    pub message: String,
    pub warnings: Vec<String>,
    pub started_at: String,
    pub updated_at: String,
}

/// What the progress of a refinement job says.
#[verifier::ext_equal]
pub ghost struct RefinementView {
    pub job_id: Seq<char>,
    pub scan_id: Seq<char>,
    pub source_id: Seq<char>,
    pub state: AsyncJobState,
    pub phase: RawEvidenceRefinementPhase,
    pub processed_units: u64,
    pub total_units: Option<u64>,
    pub message: Seq<char>,
    pub warnings: Seq<Seq<char>>,
    pub started_at: Seq<char>,
    pub updated_at: Seq<char>,
}

impl View for RawEvidenceRefinementProgress {
    type V = RefinementView;

    open spec fn view(&self) -> RefinementView {
        RefinementView {
            job_id: self.job_id@,
            scan_id: self.scan_id@,
            source_id: self.source_id@,
            state: self.state,
            phase: self.phase,
            processed_units: self.processed_units,
            total_units: self.total_units,
            message: self.message@,
            warnings: views(self.warnings@),
            started_at: self.started_at@,
            updated_at: self.updated_at@,
        }
    }
}

impl Clone for RawEvidenceRefinementProgress {
    fn clone(&self) -> (r: Self)
        ensures
            r@ == self@,
    {
        RawEvidenceRefinementProgress {
            job_id: self.job_id.clone(),
            scan_id: self.scan_id.clone(),
            source_id: self.source_id.clone(),
            state: self.state,
            phase: self.phase,
            processed_units: self.processed_units,
            total_units: self.total_units,
            message: self.message.clone(),
            warnings: clone_strings(&self.warnings),
            started_at: self.started_at.clone(),
            updated_at: self.updated_at.clone(),
        }
    }
}

/// A refinement job, and whether it was asked to stop.
#[derive(Debug)]
pub struct RawEvidenceJob {
    pub cancel: bool,
    pub progress: RawEvidenceRefinementProgress,
}

/// What is known of a refinement job.
#[verifier::ext_equal]
pub ghost struct RawJobView {
    pub cancel: bool,
    pub progress: RefinementView,
}

impl View for RawEvidenceJob {
    type V = RawJobView;

    open spec fn view(&self) -> RawJobView {
        RawJobView { cancel: self.cancel, progress: self.progress@ }
    }
}

/// A refinement job that waits to start.
pub open spec fn queued_job(
    job_id: Seq<char>,
    scan_id: Seq<char>,
    source_id: Seq<char>,
    now: Seq<char>,
) -> RawJobView {
    RawJobView {
        cancel: false,
        progress: RefinementView {
            job_id,
            scan_id,
            source_id,
            state: AsyncJobState::Running,
            phase: RawEvidenceRefinementPhase::Queued,
            processed_units: 0,
            total_units: None,
            message: "Queued NTFS raw evidence refinement"@,
            warnings: seq![],
            started_at: now,
            updated_at: now,
        },
    }
}

/// A refinement job that was asked to stop.
pub open spec fn cancelled_job(job: RawJobView, now: Seq<char>) -> RawJobView {
    RawJobView {
        cancel: true,
        progress: RefinementView {
            state: AsyncJobState::Cancelled,
            message: "Cancelling raw evidence refinement"@,
            updated_at: now,
            ..job.progress
        },
    }
}

/// A refinement job further on its way; without new warnings the old ones stay.
pub open spec fn advanced_job(
    job: RawJobView,
    state: AsyncJobState,
    phase: RawEvidenceRefinementPhase,
    processed_units: u64,
    total_units: Option<u64>,
    message: Seq<char>,
    warnings: Seq<Seq<char>>,
    now: Seq<char>,
) -> RawJobView {
    RawJobView {
        progress: RefinementView {
            state,
            phase,
            processed_units,
            total_units,
            message,
            warnings: if warnings.len() == 0 {
                job.progress.warnings
            } else {
                warnings
            },
            updated_at: now,
            ..job.progress
        },
        ..job
    }
}

impl RawEvidenceJob {
    pub fn queued(job_id: &str, scan_id: &str, source_id: &str, now: &str) -> (r: Self)
        ensures
            r@ == queued_job(job_id@, scan_id@, source_id@, now@),
    {
        let r = RawEvidenceJob {
            cancel: false,
            progress: RawEvidenceRefinementProgress {
                job_id: owned(job_id),
                scan_id: owned(scan_id),
                source_id: owned(source_id),
                state: AsyncJobState::Running,
                phase: RawEvidenceRefinementPhase::Queued,
                processed_units: 0,
                total_units: None,
                message: owned("Queued NTFS raw evidence refinement"),
                warnings: Vec::new(),
                started_at: owned(now),
                updated_at: owned(now),
            },
        };
        assert(r@.progress.warnings =~= seq![]);
        r
    }

    /// Asks the job to stop.
    pub fn request_cancel(&mut self, now: &str)
        ensures
            final(self)@ == cancelled_job(old(self)@, now@),
    {
        self.cancel = true;
        self.progress.state = AsyncJobState::Cancelled;
        self.progress.message = owned("Cancelling raw evidence refinement");
        self.progress.updated_at = owned(now);
    }

    /// Takes in how far the job is.
    pub fn advance(
        &mut self,
        state: AsyncJobState,
        phase: RawEvidenceRefinementPhase,
        processed_units: u64,
        total_units: Option<u64>,
        message: &str,
        warnings: Vec<String>,
        now: &str,
    )
        ensures
            final(self)@ == advanced_job(
                old(self)@,
                state,
                phase,
                processed_units,
                total_units,
                message@,
                views(warnings@),
                now@,
            ),
    {
        self.progress.state = state;
        self.progress.phase = phase;
        self.progress.processed_units = processed_units;
        self.progress.total_units = total_units;
        self.progress.message = owned(message);
        assert(views(warnings@).len() == warnings@.len());
        if warnings.len() > 0 {
            self.progress.warnings = warnings;
        }
        self.progress.updated_at = owned(now);
    }
}

// ---------------------------------------------------------------------------
// Stages.

/// The phase that a stage belongs to.
pub open spec fn phase_of_stage(stage: Seq<char>) -> RawEvidenceRefinementPhase {
    if stage == "building_directory_map"@ {
        RawEvidenceRefinementPhase::BuildingDirectoryMap
    } else if stage == "parsing_i30"@ {
        RawEvidenceRefinementPhase::ParsingI30
    } else if stage == "reading_usn"@ {
        RawEvidenceRefinementPhase::ReadingUsn
    } else if stage == "merging_evidence"@ {
        RawEvidenceRefinementPhase::MergingEvidence
    } else if stage == "done"@ {
        RawEvidenceRefinementPhase::Done
    } else {
        RawEvidenceRefinementPhase::Queued
    }
}

pub fn raw_evidence_phase_from_stage(stage: &str) -> (r: RawEvidenceRefinementPhase)
    ensures
        r == phase_of_stage(stage@),
{
    if *stage == *"building_directory_map" {
        RawEvidenceRefinementPhase::BuildingDirectoryMap
    } else if *stage == *"parsing_i30" {
        RawEvidenceRefinementPhase::ParsingI30
    } else if *stage == *"reading_usn" {
        RawEvidenceRefinementPhase::ReadingUsn
    } else if *stage == *"merging_evidence" {
        RawEvidenceRefinementPhase::MergingEvidence
    } else if *stage == *"done" {
        RawEvidenceRefinementPhase::Done
    } else {
        RawEvidenceRefinementPhase::Queued
    }
}

/// What is said of a stage.
pub open spec fn message_of_stage(stage: Seq<char>) -> Seq<char> {
    if stage == "building_directory_map"@ {
        "Building NTFS directory map"@
    } else if stage == "parsing_i30"@ {
        "Parsing NTFS $I30 directory evidence"@
    } else if stage == "reading_usn"@ {
        "Reading NTFS USN Journal evidence"@
    } else if stage == "merging_evidence"@ {
        "Merging raw evidence into deleted results"@
    } else if stage == "done"@ {
        "Raw NTFS evidence refinement complete"@
    } else {
        "Refining paths from NTFS raw evidence"@
    }
}

pub fn raw_evidence_stage_message(stage: &str) -> (r: String)
    ensures
        r@ == message_of_stage(stage@),
{
    if *stage == *"building_directory_map" {
        owned("Building NTFS directory map")
    } else if *stage == *"parsing_i30" {
        owned("Parsing NTFS $I30 directory evidence")
    } else if *stage == *"reading_usn" {
        owned("Reading NTFS USN Journal evidence")
    } else if *stage == *"merging_evidence" {
        owned("Merging raw evidence into deleted results")
    } else if *stage == *"done" {
        owned("Raw NTFS evidence refinement complete")
    } else {
        owned("Refining paths from NTFS raw evidence")
    }
}

/// The evidence that a refinement job reads: all there is.
pub fn refinement_config() -> (r: RawEvidenceConfig)
    ensures
        r == (RawEvidenceConfig {
            mode: RawEvidenceMode::FullExhaustive,
            i30_enabled: true,
            usn_enabled: true,
            raw_usn_fallback: true,
            emit_initial_results_before_raw: true,
        }),
{
    RawEvidenceConfig {
        mode: RawEvidenceMode::FullExhaustive,
        i30_enabled: true,
        usn_enabled: true,
        raw_usn_fallback: true,
        emit_initial_results_before_raw: true,
    }
}

// ---------------------------------------------------------------------------
// What a refinement does to its scan.

/// Why a scan cannot be refined now.
pub open spec fn refinement_refusal(s: ScanView, scan_id: Seq<char>, source_id: Seq<char>) -> Option<
    Seq<char>,
> {
    if s.source.id@ != source_id {
        Some(
            "Scan "@ + scan_id + " belongs to source "@ + s.source.id@ + (", not "@ + source_id),
        )
    } else if !s.progress.status.spec_is_success() {
        Some("Raw evidence refinement requires a completed scan"@)
    } else if s.source.filesystem != FileSystemKind::Ntfs {
        Some("Raw evidence refinement is only available for NTFS sources"@)
    } else if s.progress.raw_evidence_state == RawEvidenceState::Running {
        Some("Raw evidence refinement is already running for this scan"@)
    } else {
        None
    }
}

/// The scan while it is refined.
pub open spec fn refining(s: ScanView, now: Seq<char>) -> ScanView {
    ScanView {
        progress: ProgressView {
            raw_evidence_state: RawEvidenceState::Running,
            phase: ScanPhase::RefiningRawEvidence,
            stage: "refining_raw_evidence"@,
            message: "Refining paths from NTFS raw evidence"@,
            updated_at: now,
            last_progress_at: now,
            ..s.progress
        },
        ..s
    }
}

/// The progress of a scan whose refinement is over.
pub open spec fn refinement_over(
    p: ProgressView,
    raw_state: RawEvidenceState,
    message: Seq<char>,
    now: Seq<char>,
) -> ProgressView {
    ProgressView {
        raw_evidence_state: raw_state,
        phase: ScanPhase::Finalizing,
        stage: "raw_evidence_done"@,
        message,
        updated_at: now,
        last_progress_at: now,
        ..p
    }
}

/// What is said of a refinement that came to its end.
pub open spec fn refined_message(raw_state: RawEvidenceState) -> Seq<char> {
    if raw_state == RawEvidenceState::CompletedWithWarnings {
        "Raw NTFS evidence refined paths with warnings"@
    } else {
        "Raw NTFS evidence refinement complete"@
    }
}

/// The scan with its refined results.
pub open spec fn refined(
    s: ScanView,
    results: Seq<ArtifactView>,
    raw_state: RawEvidenceState,
    now: Seq<char>,
) -> ScanView {
    ScanView {
        results,
        ids: ids_of(results),
        cache: None,
        progress: refinement_over(s.progress, raw_state, refined_message(raw_state), now),
        ..s
    }
}

/// The scan whose refinement ended without results.
pub open spec fn not_refined(
    s: ScanView,
    raw_state: RawEvidenceState,
    message: Seq<char>,
    now: Seq<char>,
) -> ScanView {
    ScanView {
        progress: if s.progress.status.spec_is_success() {
            refinement_over(s.progress, raw_state, message, now)
        } else {
            ProgressView { raw_evidence_state: raw_state, ..s.progress }
        },
        ..s
    }
}

fn close_progress(
    progress: &mut ScanProgress,
    raw_state: RawEvidenceState,
    message: &str,
    now: &str,
)
    ensures
        final(progress)@ == refinement_over(old(progress)@, raw_state, message@, now@),
{
    progress.raw_evidence_state = raw_state;
    progress.phase = ScanPhase::Finalizing;
    progress.stage = owned("raw_evidence_done");
    progress.message = owned(message);
    progress.updated_at = owned(now);
    progress.last_progress_at = owned(now);
}

/// What is said of a refinement that came to its end.
pub fn refinement_message(raw_state: RawEvidenceState) -> (r: &'static str)
    ensures
        r@ == refined_message(raw_state),
{
    if raw_state == RawEvidenceState::CompletedWithWarnings {
        "Raw NTFS evidence refined paths with warnings"
    } else {
        "Raw NTFS evidence refinement complete"
    }
}

impl ScanSession {
    /// Whether the scan can be refined now, and if not, why.
    pub fn check_refinement(&self, request: &RawEvidenceRefinementRequest) -> (r: Result<
        (),
        RssError,
    >)
        ensures
            match r {
                Ok(_) => refinement_refusal(self@, request.scan_id@, request.source_id@) is None,
                Err(e) => refinement_refusal(self@, request.scan_id@, request.source_id@) == Some(
                    message_of(e),
                ),
            },
    {
        if *self.source.id.as_str() != *request.source_id.as_str() {
            let front = concat4(
                "Scan ",
                request.scan_id.as_str(),
                " belongs to source ",
                self.source.id.as_str(),
            );
            let back = concat2(", not ", request.source_id.as_str());
            return Err(RssError::Message(concat2(front.as_str(), back.as_str())));
        }
        if !self.progress.status.is_success() {
            return Err(
                RssError::Message(owned("Raw evidence refinement requires a completed scan")),
            );
        }
        if self.source.filesystem != FileSystemKind::Ntfs {
            return Err(
                RssError::Message(
                    owned("Raw evidence refinement is only available for NTFS sources"),
                ),
            );
        }
        if self.progress.raw_evidence_state == RawEvidenceState::Running {
            return Err(
                RssError::Message(
                    owned("Raw evidence refinement is already running for this scan"),
                ),
            );
        }
        Ok(())
    }

    /// Marks the scan as one that is refined.
    pub fn begin_refinement(&mut self, now: &str)
        ensures
            final(self)@ == refining(old(self)@, now@),
            final(self).results == old(self).results,
            final(self).source == old(self).source,
    {
        self.progress.raw_evidence_state = RawEvidenceState::Running;
        self.progress.phase = ScanPhase::RefiningRawEvidence;
        self.progress.stage = owned("refining_raw_evidence");
        self.progress.message = owned("Refining paths from NTFS raw evidence");
        self.progress.updated_at = owned(now);
        self.progress.last_progress_at = owned(now);
    }

    /// Takes in the refined results, and gives which of them the browser places in the folder
    /// tree.
    pub fn take_refined(
        &mut self,
        results: Vec<ArtifactRecord>,
        raw_state: RawEvidenceState,
        now: &str,
    ) -> (r: Vec<DeletedArtifactLocator>)
        ensures
            final(self)@ == refined(old(self)@, record_views(results@), raw_state, now@),
            r@.len() == candidate_indices(results@, results@.len() as int).len(),
            forall|k: int|
                0 <= k < r@.len() ==> locates(
                    #[trigger] r@[k],
                    results@,
                    candidate_indices(results@, results@.len() as int)[k],
                ),
    {
        let locators = collect_deleted_artifact_locators(results.as_slice());
        self.result_ids = collect_ids(&results);
        self.results = results;
        self.deleted_browse_cache = None;
        close_progress(&mut self.progress, raw_state, refinement_message(raw_state), now);
        locators
    }

    /// The refinement ended without results.
    pub fn drop_refinement(&mut self, raw_state: RawEvidenceState, message: &str, now: &str)
        ensures
            final(self)@ == not_refined(old(self)@, raw_state, message@, now@),
    {
        if self.progress.status.is_success() {
            close_progress(&mut self.progress, raw_state, message, now);
        } else {
            self.progress.raw_evidence_state = raw_state;
        }
    }
}

// ---------------------------------------------------------------------------
// How the worker came back.

/// How the work of a refinement ended: it ran (to its end or not), it failed, or it panicked.
#[derive(Debug)]
pub enum RefineOutcome {
    Ran { completed: bool },
    Failed { error: String },
    Panicked,
}

/// What follows from the end of the work.
#[derive(Debug)]
pub enum RefinementEnd {
    Complete { raw_state: RawEvidenceState },
    Close { raw_state: RawEvidenceState, job_state: AsyncJobState, message: String },
}

/// What follows from the end of the work, with the warnings that it leaves.
pub open spec fn ends_as(
    outcome: RefineOutcome,
    cancelled: bool,
    warnings: Seq<Seq<char>>,
    end: RefinementEnd,
    left: Seq<Seq<char>>,
) -> bool {
    match outcome {
        RefineOutcome::Ran { completed } => if completed && !cancelled {
            &&& left == warnings
            &&& end == RefinementEnd::Complete {
                raw_state: if warnings.len() == 0 {
                    RawEvidenceState::Completed
                } else {
                    RawEvidenceState::CompletedWithWarnings
                },
            }
        } else {
            &&& left == warnings
            &&& end matches RefinementEnd::Close {
                raw_state: RawEvidenceState::NotStarted,
                job_state: AsyncJobState::Cancelled,
                message,
            }
            &&& message@ == "Raw evidence refinement cancelled"@
        },
        RefineOutcome::Failed { error } => {
            &&& left == warnings.push("Raw evidence refinement skipped: "@ + error@)
            &&& end matches RefinementEnd::Close {
                raw_state: RawEvidenceState::CompletedWithWarnings,
                job_state: AsyncJobState::Failed,
                message,
            }
            &&& message@ == "Raw evidence refinement completed with warnings"@
        },
        RefineOutcome::Panicked => {
            &&& left == warnings.push(
                "Raw evidence worker panicked while reading NTFS evidence"@,
            )
            &&& end matches RefinementEnd::Close {
                raw_state: RawEvidenceState::CompletedWithWarnings,
                job_state: AsyncJobState::Failed,
                message,
            }
            &&& message@ == "Raw evidence refinement completed with warnings"@
        },
    }
}

/// What follows from the end of the work.
pub fn conclude_refinement(outcome: RefineOutcome, cancelled: bool, warnings: &mut Vec<String>) -> (r:
    RefinementEnd)
    ensures
        ends_as(outcome, cancelled, views(old(warnings)@), r, views(final(warnings)@)),
{
    let ghost before = views(warnings@);
    assert(before.len() == warnings@.len());
    match outcome {
        RefineOutcome::Ran { completed } => {
            if completed && !cancelled {
                let raw_state = if warnings.len() > 0 {
                    RawEvidenceState::CompletedWithWarnings
                } else {
                    RawEvidenceState::Completed
                };
                RefinementEnd::Complete { raw_state }
            } else {
                RefinementEnd::Close {
                    raw_state: RawEvidenceState::NotStarted,
                    job_state: AsyncJobState::Cancelled,
                    message: owned("Raw evidence refinement cancelled"),
                }
            }
        },
        RefineOutcome::Failed { error } => {
            let said = concat2("Raw evidence refinement skipped: ", error.as_str());
            let ghost text = said@;
            warnings.push(said);
            assert(views(warnings@) =~= before.push(text));
            RefinementEnd::Close {
                raw_state: RawEvidenceState::CompletedWithWarnings,
                job_state: AsyncJobState::Failed,
                message: owned("Raw evidence refinement completed with warnings"),
            }
        },
        RefineOutcome::Panicked => {
            let said = owned("Raw evidence worker panicked while reading NTFS evidence");
            let ghost text = said@;
            warnings.push(said);
            assert(views(warnings@) =~= before.push(text));
            RefinementEnd::Close {
                raw_state: RawEvidenceState::CompletedWithWarnings,
                job_state: AsyncJobState::Failed,
                message: owned("Raw evidence refinement completed with warnings"),
            }
        },
    }
}

// ---------------------------------------------------------------------------
// Laws.

/// A scan that is refined is not refined a second time; once the refinement is over it can be
/// refined again.
pub proof fn lemma_one_refinement_at_a_time(
    s: ScanView,
    scan_id: Seq<char>,
    source_id: Seq<char>,
    results: Seq<ArtifactView>,
    raw_state: RawEvidenceState,
    now: Seq<char>,
    later: Seq<char>,
)
    requires
        refinement_refusal(s, scan_id, source_id) is None,
        raw_state != RawEvidenceState::Running,
    ensures
        refinement_refusal(refining(s, now), scan_id, source_id) == Some(
            "Raw evidence refinement is already running for this scan"@,
        ),
        refinement_refusal(
            refined(refining(s, now), results, raw_state, later),
            scan_id,
            source_id,
        ) is None,
{
}

/// A refinement that did not come to its end leaves the results of its scan as they were.
pub proof fn lemma_results_outlive_a_failed_refinement(
    s: ScanView,
    raw_state: RawEvidenceState,
    message: Seq<char>,
    now: Seq<char>,
    later: Seq<char>,
)
    ensures
        not_refined(refining(s, now), raw_state, message, later).results == s.results,
        not_refined(refining(s, now), raw_state, message, later).cache == s.cache,
        not_refined(refining(s, now), raw_state, message, later).summary == s.summary,
{
}

} // verus!
