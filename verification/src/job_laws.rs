//! What background jobs and refinements tell, field by field.

use crate::jobs::{cancelled, finished, new_job, set_in_state, JobView};
use crate::model::{AsyncJobState, AsyncJobStatus, RawEvidenceRefinementPhase, RawEvidenceState};
use crate::records::ArtifactView;
use crate::refinement::{
    advanced_job, cancelled_job, ends_as, not_refined, phase_of_stage, queued_job, refined,
    refinement_refusal, refining, RawEvidenceJob, RawJobView, RefineOutcome, RefinementEnd,
};
use crate::sessions::{lemma_ids_of, ScanView};
use crate::text::{opt_view, views};
use vstd::prelude::*;
use vstd::string::*;

verus! {

/// What is said of the status of a job is what its fields hold.
pub proof fn lemma_status_says_its_fields(s: AsyncJobStatus)
    ensures
        s@.job_id == s.job_id@,
        s@.state == s.state,
        s@.created_at == s.created_at@,
        s@.updated_at == s.updated_at@,
        s@.error == opt_view(s.error),
{
}

/// A new job waits, was made and last changed now, and has neither an answer nor an error.
pub proof fn lemma_new_job_waits<T>(job_id: Seq<char>, now: Seq<char>)
    ensures
        ({
            let j = new_job::<T>(job_id, now);
            &&& !j.cancel
            &&& j.result is None
            &&& j.status.job_id == job_id
            &&& j.status.state is Pending
            &&& j.status.created_at == now
            &&& j.status.updated_at == now
            &&& j.status.error is None
        }),
{
}

/// A change of state leaves a job its id and the time at which it was made, and notes when it
/// happened.
pub proof fn lemma_job_changes_state_alone<T>(
    job: JobView<T>,
    state: AsyncJobState,
    error: Option<Seq<char>>,
    now: Seq<char>,
)
    requires
        !job.cancel || !(job.status.state is Cancelled),
    ensures
        ({
            let j = set_in_state(job, state, error, now);
            &&& j.status.state == state
            &&& j.status.error == error
            &&& j.status.updated_at == now
            &&& j.status.job_id == job.status.job_id
            &&& j.status.created_at == job.status.created_at
            &&& j.cancel == job.cancel
            &&& j.result == job.result
        }),
{
}

/// A job whose work came to its end is completed with what the work gave, or failed with the
/// error that the work told; either way it keeps its id and the time at which it was made.
pub proof fn lemma_finished_job_tells_its_end<T>(
    job: JobView<T>,
    result: Result<T, Seq<char>>,
    now: Seq<char>,
)
    ensures
        ({
            let j = finished(job, result, now);
            &&& j.status.job_id == job.status.job_id
            &&& j.status.created_at == job.status.created_at
            &&& j.status.updated_at == now
            &&& j.cancel == job.cancel
            &&& job.cancel || job.status.state is Cancelled ==> j.status.state is Cancelled
                && j.result is None && j.status.error is None
            &&& !job.cancel && !(job.status.state is Cancelled) ==> match result {
                Ok(value) => j.status.state is Completed && j.result == Some(value)
                    && j.status.error is None,
                Err(e) => j.status.state is Failed && j.result is None && j.status.error == Some(e),
            }
        }),
{
}

/// A job that is asked to stop knows of it; one that waits or runs is cancelled, one that is over
/// keeps its status and its answer.
pub proof fn lemma_cancelled_job_knows_of_it<T>(job: JobView<T>, now: Seq<char>)
    ensures
        ({
            let j = cancelled(job, now);
            &&& j.cancel
            &&& j.status.job_id == job.status.job_id
            &&& j.status.created_at == job.status.created_at
            &&& job.status.state is Pending || job.status.state is Running
                ==> j.status.state is Cancelled && j.result is None && j.status.error is None
                && j.status.updated_at == now
            &&& job.status.state is Completed || job.status.state is Failed
                || job.status.state is Cancelled ==> j.status == job.status && j.result
                == job.result
        }),
{
}

/// What is said of a refinement job is what its fields hold.
pub proof fn lemma_refinement_says_its_fields(j: RawEvidenceJob)
    ensures
        j@.cancel == j.cancel,
        j@.progress == j.progress@,
        j.progress@.job_id == j.progress.job_id@,
        j.progress@.scan_id == j.progress.scan_id@,
        j.progress@.source_id == j.progress.source_id@,
        j.progress@.state == j.progress.state,
        j.progress@.phase == j.progress.phase,
        j.progress@.processed_units == j.progress.processed_units,
        j.progress@.total_units == j.progress.total_units,
        j.progress@.message == j.progress.message@,
        j.progress@.warnings == views(j.progress.warnings@),
        j.progress@.started_at == j.progress.started_at@,
        j.progress@.updated_at == j.progress.updated_at@,
{
}

/// A refinement job that was queued has done nothing yet.
pub proof fn lemma_queued_job_has_done_nothing(
    job_id: Seq<char>,
    scan_id: Seq<char>,
    source_id: Seq<char>,
    now: Seq<char>,
)
    ensures
        ({
            let j = queued_job(job_id, scan_id, source_id, now);
            &&& !j.cancel
            &&& j.progress.job_id == job_id
            &&& j.progress.scan_id == scan_id
            &&& j.progress.source_id == source_id
            &&& j.progress.state is Running
            &&& j.progress.phase is Queued
            &&& j.progress.processed_units == 0
            &&& j.progress.total_units is None
            &&& j.progress.warnings.len() == 0
            &&& j.progress.started_at == now
            &&& j.progress.updated_at == now
        }),
{
}

/// A refinement job that goes on tells how far it is, and stays the job of its scan. Warnings
/// are never taken back without new ones.
pub proof fn lemma_advanced_job_tells_how_far_it_is(
    job: RawJobView,
    state: AsyncJobState,
    phase: RawEvidenceRefinementPhase,
    processed_units: u64,
    total_units: Option<u64>,
    message: Seq<char>,
    warnings: Seq<Seq<char>>,
    now: Seq<char>,
)
    ensures
        ({
            let j = advanced_job(
                job,
                state,
                phase,
                processed_units,
                total_units,
                message,
                warnings,
                now,
            );
            &&& j.cancel == job.cancel
            &&& j.progress.job_id == job.progress.job_id
            &&& j.progress.scan_id == job.progress.scan_id
            &&& j.progress.source_id == job.progress.source_id
            &&& j.progress.started_at == job.progress.started_at
            &&& j.progress.state == state
            &&& j.progress.phase == phase
            &&& j.progress.processed_units == processed_units
            &&& j.progress.total_units == total_units
            &&& j.progress.message == message
            &&& j.progress.updated_at == now
            &&& warnings.len() > 0 ==> j.progress.warnings == warnings
            &&& warnings.len() == 0 ==> j.progress.warnings == job.progress.warnings
        }),
{
}

/// A refinement job that is asked to stop is cancelled where it is.
pub proof fn lemma_cancelled_refinement_stays_where_it_is(job: RawJobView, now: Seq<char>)
    ensures
        ({
            let j = cancelled_job(job, now);
            &&& j.cancel
            &&& j.progress.state is Cancelled
            &&& j.progress.updated_at == now
            &&& j.progress.job_id == job.progress.job_id
            &&& j.progress.scan_id == job.progress.scan_id
            &&& j.progress.source_id == job.progress.source_id
            &&& j.progress.phase == job.progress.phase
            &&& j.progress.processed_units == job.progress.processed_units
            &&& j.progress.total_units == job.progress.total_units
            &&& j.progress.warnings == job.progress.warnings
            &&& j.progress.started_at == job.progress.started_at
        }),
{
}

/// Only a successful scan of an NTFS source that is not refined already is refined, and only for
/// the source that it read.
pub proof fn lemma_refinement_needs_a_finished_ntfs_scan(
    s: ScanView,
    scan_id: Seq<char>,
    source_id: Seq<char>,
)
    ensures
        refinement_refusal(s, scan_id, source_id) is None <==> s.source.id@ == source_id
            && s.progress.status.spec_is_success() && s.source.filesystem is Ntfs && !(
        s.progress.raw_evidence_state is Running),
{
}

/// A scan that is refined is busy with it, and keeps all else.
pub proof fn lemma_refining_changes_progress_alone(s: ScanView, now: Seq<char>)
    ensures
        ({
            let r = refining(s, now);
            &&& r.progress.raw_evidence_state is Running
            &&& r.progress.phase is RefiningRawEvidence
            &&& r.progress.updated_at == now
            &&& r.progress.last_progress_at == now
            &&& r.progress.status == s.progress.status
            &&& r.results == s.results
            &&& r.ids == s.ids
            &&& r.cache == s.cache
            &&& r.source == s.source
            &&& r.summary == s.summary
        }),
{
}

/// A refined scan has the results of the refinement, and is no longer busy.
pub proof fn lemma_refined_scan_has_the_results(
    s: ScanView,
    results: Seq<ArtifactView>,
    raw_state: RawEvidenceState,
    now: Seq<char>,
    k: int,
)
    requires
        0 <= k < results.len(),
    ensures
        ({
            let r = refined(s, results, raw_state, now);
            &&& r.results == results
            &&& r.ids.contains(results[k].id)
            &&& r.cache is None
            &&& r.source == s.source
            &&& r.summary == s.summary
            &&& r.progress.status == s.progress.status
            &&& r.progress.raw_evidence_state == raw_state
            &&& r.progress.phase is Finalizing
            &&& r.progress.updated_at == now
            &&& r.progress.last_progress_at == now
        }),
{
    lemma_ids_of(results, results[k].id);
}

/// A refinement that ended without results says why on a scan that succeeded, and never touches
/// what the scan found.
pub proof fn lemma_dropped_refinement_says_why(
    s: ScanView,
    raw_state: RawEvidenceState,
    message: Seq<char>,
    now: Seq<char>,
)
    ensures
        ({
            let r = not_refined(s, raw_state, message, now);
            &&& r.results == s.results
            &&& r.ids == s.ids
            &&& r.cache == s.cache
            &&& r.source == s.source
            &&& r.progress.status == s.progress.status
            &&& r.progress.raw_evidence_state == raw_state
            &&& s.progress.status.spec_is_success() ==> r.progress.message == message
                && r.progress.phase is Finalizing && r.progress.updated_at == now
            &&& !s.progress.status.spec_is_success() ==> r.progress.message == s.progress.message
                && r.progress.phase == s.progress.phase && r.progress.updated_at
                == s.progress.updated_at
        }),
{
}

/// The results of a refinement are taken only when its work ran to its end and nobody asked it
/// to stop; a warning shows in the state, and a failure leaves one warning more.
pub proof fn lemma_refinement_ends_as_its_work(
    outcome: RefineOutcome,
    cancelled: bool,
    warnings: Seq<Seq<char>>,
    end: RefinementEnd,
    left: Seq<Seq<char>>,
)
    requires
        ends_as(outcome, cancelled, warnings, end, left),
    ensures
        end is Complete <==> !cancelled && (outcome matches RefineOutcome::Ran { completed }
            && completed),
        end matches RefinementEnd::Complete { raw_state } ==> (raw_state is Completed
            <==> warnings.len() == 0) && (raw_state is CompletedWithWarnings <==> warnings.len()
            > 0),
        end matches RefinementEnd::Close { raw_state, job_state, message } ==> if outcome is Ran {
            raw_state is NotStarted && job_state is Cancelled
        } else {
            raw_state is CompletedWithWarnings && job_state is Failed
        },
        outcome is Ran ==> left == warnings,
        !(outcome is Ran) ==> left.len() == warnings.len() + 1 && warnings.is_prefix_of(left),
        outcome matches RefineOutcome::Failed { error } ==> error@.is_suffix_of(left.last()),
{
    if let RefineOutcome::Failed { error } = outcome {
        let said = "Raw evidence refinement skipped: "@ + error@;
        assert(left.last() == said);
        assert(error@ =~= said.subrange(said.len() - error@.len(), said.len() as int));
    }
}

/// Each stage of a refinement has a phase of its own.
pub proof fn lemma_stages_have_their_phases()
    ensures
        phase_of_stage("building_directory_map"@) is BuildingDirectoryMap,
        phase_of_stage("parsing_i30"@) is ParsingI30,
        phase_of_stage("reading_usn"@) is ReadingUsn,
        phase_of_stage("merging_evidence"@) is MergingEvidence,
        phase_of_stage("done"@) is Done,
        forall|s: Seq<char>|
            s != "building_directory_map"@ && s != "parsing_i30"@ && s != "reading_usn"@ && s
                != "merging_evidence"@ && s != "done"@ ==> #[trigger] phase_of_stage(s) is Queued,
{
    reveal_strlit("building_directory_map");
    reveal_strlit("parsing_i30");
    reveal_strlit("reading_usn");
    reveal_strlit("merging_evidence");
    reveal_strlit("done");
    assert("building_directory_map"@.len() == 22 && "parsing_i30"@.len() == 11
        && "reading_usn"@.len() == 11 && "merging_evidence"@.len() == 16 && "done"@.len() == 4);
    assert("parsing_i30"@[0] == 'p' && "reading_usn"@[0] == 'r');
}

} // verus!
