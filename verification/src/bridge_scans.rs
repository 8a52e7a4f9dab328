//! Scans and their refinements in the state behind the user interface.

use crate::bridge::{
    lemma_seen, source_with_id, sound_cache, sound_scans, unknown_source, BridgeState, BridgeView,
};
use crate::browse_cache::{candidate_indices, locates, DeletedArtifactLocator, DeletedBrowseCache};
use crate::model::{
    message_of, summarizes, ArtifactRecord, ArtifactSummary, AsyncJobState,
    RawEvidenceRefinementPhase, RawEvidenceRefinementRequest, RawEvidenceState, RecoveryRequest,
    RssError, ScanOptions, ScanSource,
};
use crate::records::{lemma_same_view, record_views, ArtifactView};
use crate::refinement::{
    advanced_job, cancelled_job, conclude_refinement, ends_as, message_of_stage, not_refined,
    phase_of_stage, queued_job, raw_evidence_phase_from_stage, raw_evidence_stage_message, refined,
    refined_message, refinement_message, refinement_refusal, refining, RawEvidenceJob,
    RawEvidenceRefinementProgress, RawJobView, RefineOutcome, RefinementEnd,
};
use crate::scan_run::{ScanExecution, ScanProgress};
use crate::seqs::kept;
use crate::sessions::{
    broken_off, clone_records, completed, queued_session, stopped, with_batch, ScanCompletion,
    ScanSession, ScanSnapshot, ScanView, SnapshotView,
};
use crate::text::{concat3, concat4, contains_string, owned, views};
use vstd::prelude::*;
use vstd::string::*;

verus! {

/// The state with another scan.
pub open spec fn with_scan(b: BridgeView, scan_id: Seq<char>, s: ScanView) -> BridgeView {
    BridgeView { sessions: b.sessions.insert(scan_id, s), ..b }
}

/// The state with another refinement job.
pub open spec fn with_raw_job(b: BridgeView, job_id: Seq<char>, job: RawJobView) -> BridgeView {
    BridgeView { raw_jobs: b.raw_jobs.insert(job_id, job), ..b }
}

/// What is said of a scan that is not there.
pub open spec fn scan_missing(scan_id: Seq<char>) -> Seq<char> {
    "Scan "@ + scan_id + " not found"@
}

/// What is said of a refinement job that is not there.
pub open spec fn raw_job_missing(job_id: Seq<char>) -> Seq<char> {
    "Raw evidence job "@ + job_id + " not found"@
}

/// The summaries of all results.
pub open spec fn summarizes_all(list: Seq<ArtifactSummary>, results: Seq<ArtifactRecord>) -> bool {
    &&& list.len() == results.len()
    &&& forall|i: int| 0 <= i < list.len() ==> summarizes(#[trigger] list[i], results[i])
}

/// The first record with an id.
pub open spec fn find_record_at(records: Seq<ArtifactView>, id: Seq<char>, i: int) -> Option<
    ArtifactView,
>
    decreases records.len() - i,
{
    if i < 0 || i >= records.len() {
        None
    } else if records[i].id == id {
        Some(records[i])
    } else {
        find_record_at(records, id, i + 1)
    }
}

/// A record of a scan.
pub open spec fn record_of(b: BridgeView, scan_id: Seq<char>, artifact_id: Seq<char>) -> Option<
    ArtifactView,
> {
    if b.sessions.contains_key(scan_id) {
        find_record_at(b.sessions[scan_id].results, artifact_id, 0)
    } else {
        None
    }
}

/// Whether a record is among those that were asked for.
pub open spec fn is_selected(ids: Seq<Seq<char>>) -> spec_fn(ArtifactView) -> bool {
    |r: ArtifactView| ids.contains(r.id)
}

/// The results that the browser places in the folder tree.
pub open spec fn locates_deleted(
    locators: Seq<DeletedArtifactLocator>,
    results: Seq<ArtifactRecord>,
) -> bool {
    &&& locators.len() == candidate_indices(results, results.len() as int).len()
    &&& forall|k: int|
        0 <= k < locators.len() ==> locates(
            #[trigger] locators[k],
            results,
            candidate_indices(results, results.len() as int)[k],
        )
}

/// How a scan's work ended: with an outcome, with an error, or with a panic.
pub enum ScanOutcome {
    Ran(ScanExecution),
    Failed { error: String },
    Panicked,
}

/// What a refinement needs of its scan.
pub struct RefinementInput {
    pub source: ScanSource,
    pub results: Vec<ArtifactRecord>,
}

impl BridgeState {
    fn take_scan(&mut self, scan_id: &str) -> (r: Option<ScanSession>)
        requires
            old(self).wf(),
        ensures
            final(self).wf(),
            match r {
                Some(s) => {
                    &&& old(self)@.sessions.contains_key(scan_id@)
                    &&& old(self).sessions@.contains_key(scan_id@)
                    &&& s == old(self).sessions@[scan_id@]
                    &&& s@ == old(self)@.sessions[scan_id@]
                    &&& sound_cache(s@.cache)
                    &&& final(self)@ == (BridgeView {
                        sessions: old(self)@.sessions.remove(scan_id@),
                        ..old(self)@
                    })
                },
                None => !old(self)@.sessions.contains_key(scan_id@) && final(self)@ == old(self)@,
            },
    {
        if !self.sessions.contains_key(scan_id) {
            return None;
        }
        let ghost before = self.sessions@;
        let ghost held = self@.sessions;
        let taken = self.sessions.remove(scan_id);
        proof {
            lemma_seen(before, scan_id@, before[scan_id@]);
            assert(held.contains_key(scan_id@));
            assert(sound_scans(self@.sessions)) by {
                assert forall|k: Seq<char>| #[trigger]
                    self@.sessions.contains_key(k) implies sound_cache(self@.sessions[k].cache) by {
                    assert(held.contains_key(k));
                }
            }
        }
        taken
    }

    fn put_scan(&mut self, scan_id: &str, session: ScanSession)
        requires
            old(self).wf(),
            sound_cache(session@.cache),
        ensures
            final(self).wf(),
            final(self)@ == with_scan(old(self)@, scan_id@, session@),
            final(self).sessions@ == old(self).sessions@.insert(scan_id@, session),
    {
        let ghost held = self@.sessions;
        proof {
            lemma_seen(self.sessions@, scan_id@, session);
        }
        let ghost s = session@;
        self.sessions.insert(scan_id, session);
        proof {
            assert(self@.sessions == held.insert(scan_id@, s));
            assert forall|k: Seq<char>| #[trigger] self@.sessions.contains_key(k) implies sound_cache(
                self@.sessions[k].cache,
            ) by {
                if k != scan_id@ {
                    assert(held.contains_key(k));
                }
            }
        }
    }

    fn take_raw_job(&mut self, job_id: &str) -> (r: Option<RawEvidenceJob>)
        requires
            old(self).wf(),
        ensures
            final(self).wf(),
            match r {
                Some(job) => {
                    &&& old(self)@.raw_jobs.contains_key(job_id@)
                    &&& job@ == old(self)@.raw_jobs[job_id@]
                    &&& final(self)@ == (BridgeView {
                        raw_jobs: old(self)@.raw_jobs.remove(job_id@),
                        ..old(self)@
                    })
                },
                None => !old(self)@.raw_jobs.contains_key(job_id@) && final(self)@ == old(self)@,
            },
    {
        if !self.raw_evidence_jobs.contains_key(job_id) {
            return None;
        }
        let ghost before = self.raw_evidence_jobs@;
        let taken = self.raw_evidence_jobs.remove(job_id);
        proof {
            lemma_seen(before, job_id@, before[job_id@]);
        }
        taken
    }

    fn put_raw_job(&mut self, job_id: &str, job: RawEvidenceJob)
        requires
            old(self).wf(),
        ensures
            final(self).wf(),
            final(self)@ == with_raw_job(old(self)@, job_id@, job@),
    {
        proof {
            lemma_seen(self.raw_evidence_jobs@, job_id@, job);
        }
        self.raw_evidence_jobs.insert(job_id, job);
    }

    // -----------------------------------------------------------------------
    // Scans.

    /// Queues a scan, and gives its source and its first progress.
    pub fn start_scan(&mut self, options: ScanOptions, scan_id: &str, now: &str) -> (r: Result<
        (ScanSource, ScanProgress),
        RssError,
    >)
        requires
            old(self).wf(),
        ensures
            final(self).wf(),
            match (r, source_with_id(old(self)@.sources, options.source_id@)) {
                (Ok((found, progress)), Some(source)) => {
                    let queued = queued_session(scan_id@, source, options, now@);
                    &&& found == source
                    &&& progress@ == queued.progress
                    &&& final(self)@ == with_scan(old(self)@, scan_id@, queued)
                },
                (Err(e), None) => {
                    &&& message_of(e) == unknown_source(options.source_id@)
                    &&& final(self)@ == old(self)@
                },
                _ => false,
            },
    {
        let source = match self.find_source(options.source_id.as_str()) {
            Ok(source) => source,
            Err(e) => {
                return Err(e);
            },
        };
        let session = ScanSession::queued(scan_id, source.clone(), options, now);
        let progress = session.progress.clone();
        self.put_scan(scan_id, session);
        Ok((source, progress))
    }

    /// Asks a scan to stop.
    pub fn stop_scan(&mut self, scan_id: &str, now: &str) -> (r: Result<(), RssError>)
        requires
            old(self).wf(),
        ensures
            final(self).wf(),
            if old(self)@.sessions.contains_key(scan_id@) {
                r is Ok && final(self)@ == with_scan(
                    old(self)@,
                    scan_id@,
                    stopped(old(self)@.sessions[scan_id@], now@),
                )
            } else {
                final(self)@ == old(self)@ && (r matches Err(e) && message_of(e) == scan_missing(
                    scan_id@,
                ))
            },
    {
        match self.take_scan(scan_id) {
            Some(mut session) => {
                session.stop(now);
                self.put_scan(scan_id, session);
                assert(self@ =~= with_scan(
                    old(self)@,
                    scan_id@,
                    stopped(old(self)@.sessions[scan_id@], now@),
                ));
                Ok(())
            },
            None => Err(RssError::Message(concat3("Scan ", scan_id, " not found"))),
        }
    }

    /// How far a scan is.
    pub fn scan_progress(&self, scan_id: &str) -> (r: Result<ScanProgress, RssError>)
        requires
            self.wf(),
        ensures
            if self@.sessions.contains_key(scan_id@) {
                r matches Ok(progress) && progress@ == self@.sessions[scan_id@].progress
            } else {
                r matches Err(e) && message_of(e) == scan_missing(scan_id@)
            },
    {
        match self.sessions.get(scan_id) {
            Some(session) => Ok(session.progress.clone()),
            None => Err(RssError::Message(concat3("Scan ", scan_id, " not found"))),
        }
    }

    /// Takes in how far a scan is.
    pub fn update_progress(&mut self, scan_id: &str, progress: ScanProgress)
        requires
            old(self).wf(),
        ensures
            final(self).wf(),
            final(self)@ == if old(self)@.sessions.contains_key(scan_id@) {
                with_scan(
                    old(self)@,
                    scan_id@,
                    ScanView { progress: progress@, ..old(self)@.sessions[scan_id@] },
                )
            } else {
                old(self)@
            },
    {
        let ghost new = progress@;
        if let Some(mut session) = self.take_scan(scan_id) {
            session.update_progress(progress);
            self.put_scan(scan_id, session);
            assert(self@ =~= with_scan(
                old(self)@,
                scan_id@,
                ScanView { progress: new, ..old(self)@.sessions[scan_id@] },
            ));
        }
    }

    /// Takes in results of a scan that is on its way.
    pub fn update_results(&mut self, scan_id: &str, results: &Vec<ArtifactRecord>)
        requires
            old(self).wf(),
        ensures
            final(self).wf(),
            final(self)@ == if old(self)@.sessions.contains_key(scan_id@) {
                with_scan(
                    old(self)@,
                    scan_id@,
                    with_batch(old(self)@.sessions[scan_id@], record_views(results@)),
                )
            } else {
                old(self)@
            },
    {
        if let Some(mut session) = self.take_scan(scan_id) {
            let ghost before = session@;
            session.update_results(results);
            proof {
                lemma_batch_keeps_cache(before, record_views(results@));
            }
            self.put_scan(scan_id, session);
            assert(self@ =~= with_scan(
                old(self)@,
                scan_id@,
                with_batch(old(self)@.sessions[scan_id@], record_views(results@)),
            ));
        }
    }

    /// Whether a scan was asked to stop.
    pub fn is_cancel_requested(&self, scan_id: &str) -> (r: bool)
        requires
            self.wf(),
        ensures
            r == (self@.sessions.contains_key(scan_id@)
                && self@.sessions[scan_id@].cancel_requested),
    {
        match self.sessions.get(scan_id) {
            Some(session) => session.cancel_requested,
            None => false,
        }
    }

    /// Takes in the outcome of a scan.
    pub fn complete_scan(&mut self, scan_id: &str, execution: ScanExecution) -> (r: Result<
        ScanCompletion,
        RssError,
    >)
        requires
            old(self).wf(),
        ensures
            final(self).wf(),
            if old(self)@.sessions.contains_key(scan_id@) {
                let after = completed(
                    old(self)@.sessions[scan_id@],
                    scan_id@,
                    execution.progress@,
                    record_views(execution.results@),
                    views(execution.warnings@),
                    execution.counters,
                );
                &&& r matches Ok(completion)
                &&& final(self)@ == with_scan(old(self)@, scan_id@, after)
                &&& completion.snapshot@ == (SnapshotView {
                    summary: after.summary->0,
                    source: after.source,
                    progress: after.progress,
                    results: seq![],
                })
                &&& locates_deleted(completion.locators@, execution.results@)
            } else {
                final(self)@ == old(self)@ && (r matches Err(e) && message_of(e) == "Scan "@
                    + scan_id@ + " disappeared during completion"@)
            },
    {
        match self.take_scan(scan_id) {
            Some(mut session) => {
                let ghost before = session@;
                let completion = session.complete_scan(scan_id, execution);
                let ghost after = session@;
                self.put_scan(scan_id, session);
                assert(self@ =~= with_scan(old(self)@, scan_id@, after));
                Ok(completion)
            },
            None => Err(
                RssError::Message(concat3("Scan ", scan_id, " disappeared during completion")),
            ),
        }
    }

    /// Closes a scan that broke off.
    pub fn finalize_scan_with_warning(&mut self, scan_id: &str, reason: &str, now: &str)
        requires
            old(self).wf(),
        ensures
            final(self).wf(),
            final(self)@ == if old(self)@.sessions.contains_key(scan_id@) {
                with_scan(
                    old(self)@,
                    scan_id@,
                    broken_off(old(self)@.sessions[scan_id@], scan_id@, reason@, now@),
                )
            } else {
                old(self)@
            },
    {
        if let Some(mut session) = self.take_scan(scan_id) {
            session.finalize_scan_with_warning(scan_id, reason, now);
            let ghost after = session@;
            self.put_scan(scan_id, session);
            assert(self@ =~= with_scan(old(self)@, scan_id@, after));
        }
    }

    /// Takes in how the work of a scan ended.
    pub fn end_scan(&mut self, scan_id: &str, outcome: ScanOutcome, now: &str) -> (r: Option<
        ScanCompletion,
    >)
        requires
            old(self).wf(),
        ensures
            final(self).wf(),
            !old(self)@.sessions.contains_key(scan_id@) ==> r is None && final(self)@ == old(self)@,
            old(self)@.sessions.contains_key(scan_id@) ==> match outcome {
                ScanOutcome::Ran(execution) => {
                    let after = completed(
                        old(self)@.sessions[scan_id@],
                        scan_id@,
                        execution.progress@,
                        record_views(execution.results@),
                        views(execution.warnings@),
                        execution.counters,
                    );
                    &&& r matches Some(completion)
                    &&& final(self)@ == with_scan(old(self)@, scan_id@, after)
                    &&& completion.snapshot@ == (SnapshotView {
                        summary: after.summary->0,
                        source: after.source,
                        progress: after.progress,
                        results: seq![],
                    })
                    &&& locates_deleted(completion.locators@, execution.results@)
                },
                ScanOutcome::Failed { error } => r is None && final(self)@ == with_scan(
                    old(self)@,
                    scan_id@,
                    broken_off(old(self)@.sessions[scan_id@], scan_id@, error@, now@),
                ),
                ScanOutcome::Panicked => r is None && final(self)@ == with_scan(
                    old(self)@,
                    scan_id@,
                    broken_off(
                        old(self)@.sessions[scan_id@],
                        scan_id@,
                        "Scan worker panicked while reading disk"@,
                        now@,
                    ),
                ),
            },
    {
        match outcome {
            ScanOutcome::Ran(execution) => match self.complete_scan(scan_id, execution) {
                Ok(completion) => Some(completion),
                Err(_) => None,
            },
            ScanOutcome::Failed { error } => {
                self.finalize_scan_with_warning(scan_id, error.as_str(), now);
                None
            },
            ScanOutcome::Panicked => {
                self.finalize_scan_with_warning(
                    scan_id,
                    "Scan worker panicked while reading disk",
                    now,
                );
                None
            },
        }
    }

    /// Takes in the folder tree of the deleted files of a scan.
    pub fn store_deleted_browse_cache(
        &mut self,
        scan_id: &str,
        cache: Option<DeletedBrowseCache>,
    )
        requires
            old(self).wf(),
            sound_cache(cache),
        ensures
            final(self).wf(),
            final(self)@ == if old(self)@.sessions.contains_key(scan_id@) {
                with_scan(
                    old(self)@,
                    scan_id@,
                    ScanView { cache, ..old(self)@.sessions[scan_id@] },
                )
            } else {
                old(self)@
            },
    {
        if let Some(mut session) = self.take_scan(scan_id) {
            session.deleted_browse_cache = cache;
            let ghost after = session@;
            self.put_scan(scan_id, session);
            assert(self@ =~= with_scan(old(self)@, scan_id@, after));
        }
    }

    /// The results of a scan as they are listed.
    pub fn scan_results(&self, scan_id: &str) -> (r: Result<Vec<ArtifactSummary>, RssError>)
        requires
            self.wf(),
        ensures
            if self@.sessions.contains_key(scan_id@) {
                r matches Ok(list) && summarizes_all(
                    list@,
                    self.sessions@[scan_id@].results@,
                )
            } else {
                r matches Err(e) && message_of(e) == scan_missing(scan_id@)
            },
    {
        let session = match self.sessions.get(scan_id) {
            Some(session) => session,
            None => {
                return Err(RssError::Message(concat3("Scan ", scan_id, " not found")));
            },
        };
        let mut list: Vec<ArtifactSummary> = Vec::new();
        let mut i: usize = 0;
        while i < session.results.len()
            invariant
                i <= session.results@.len(),
                list@.len() == i,
                forall|j: int|
                    0 <= j < i ==> summarizes(#[trigger] list@[j], session.results@[j]),
            decreases session.results@.len() - i,
        {
            list.push(session.results[i].to_summary());
            i += 1;
        }
        Ok(list)
    }

    /// A result of a scan.
    pub fn artifact_details(&self, scan_id: &str, artifact_id: &str) -> (r: Result<
        ArtifactRecord,
        RssError,
    >)
        requires
            self.wf(),
        ensures
            match (r, record_of(self@, scan_id@, artifact_id@)) {
                (Ok(found), Some(record)) => found@ == record,
                (Err(e), None) => message_of(e) == "Artifact "@ + artifact_id@
                    + " was not found in scan "@ + scan_id@,
                _ => false,
            },
    {
        if let Some(session) = self.sessions.get(scan_id) {
            let ghost all = record_views(session.results@);
            let mut i: usize = 0;
            while i < session.results.len()
                invariant
                    i <= session.results@.len(),
                    all == record_views(session.results@),
                    record_of(self@, scan_id@, artifact_id@) == find_record_at(
                        all,
                        artifact_id@,
                        i as int,
                    ),
                decreases session.results@.len() - i,
            {
                let record = &session.results[i];
                assert(all[i as int] == record@);
                if *record.id.as_str() == *artifact_id {
                    let copy = record.clone();
                    proof {
                        lemma_same_view(*record, copy);
                    }
                    return Ok(copy);
                }
                i += 1;
            }
        }
        Err(
            RssError::Message(
                concat4("Artifact ", artifact_id, " was not found in scan ", scan_id),
            ),
        )
    }

    /// A finished scan with all its results.
    pub fn scan_snapshot(&self, scan_id: &str) -> (r: Result<ScanSnapshot, RssError>)
        requires
            self.wf(),
        ensures
            if !self@.sessions.contains_key(scan_id@) {
                r matches Err(e) && message_of(e) == scan_missing(scan_id@)
            } else {
                let s = self@.sessions[scan_id@];
                match s.summary {
                    None => r matches Err(e) && message_of(e) == "Scan "@ + scan_id@
                        + " has not completed yet"@,
                    Some(summary) => r matches Ok(snapshot) && snapshot@ == (SnapshotView {
                        summary,
                        source: s.source,
                        progress: s.progress,
                        results: s.results,
                    }),
                }
            },
    {
        let session = match self.sessions.get(scan_id) {
            Some(session) => session,
            None => {
                return Err(RssError::Message(concat3("Scan ", scan_id, " not found")));
            },
        };
        match &session.summary {
            None => Err(
                RssError::Message(concat3("Scan ", scan_id, " has not completed yet")),
            ),
            Some(summary) => {
                let copy = summary.clone();
                assert(copy@ =~= summary@);
                Ok(
                    ScanSnapshot {
                        summary: copy,
                        source: session.source.clone(),
                        progress: session.progress.clone(),
                        results: clone_records(&session.results),
                    },
                )
            },
        }
    }

    /// The results that a recovery asks for.
    pub fn recover(&self, request: &RecoveryRequest) -> (r: Result<Vec<ArtifactRecord>, RssError>)
        requires
            self.wf(),
        ensures
            if !self@.sessions.contains_key(request.scan_id@) {
                r matches Err(e) && message_of(e) == scan_missing(request.scan_id@)
            } else {
                let chosen = kept(
                    self@.sessions[request.scan_id@].results,
                    is_selected(views(request.artifact_ids@)),
                );
                if chosen.len() == 0 {
                    r matches Err(e) && message_of(e)
                        == "No matching artifacts selected for recovery"@
                } else {
                    r matches Ok(list) && record_views(list@) == chosen
                }
            },
    {
        let session = match self.sessions.get(request.scan_id.as_str()) {
            Some(session) => session,
            None => {
                return Err(
                    RssError::Message(concat3("Scan ", request.scan_id.as_str(), " not found")),
                );
            },
        };
        let chosen = select_records(&session.results, &request.artifact_ids);
        assert(record_views(chosen@).len() == chosen@.len());
        if chosen.len() == 0 {
            return Err(RssError::Message(owned("No matching artifacts selected for recovery")));
        }
        Ok(chosen)
    }

    // -----------------------------------------------------------------------
    // Refinements.

    /// Starts the refinement of a scan, and gives what it works on.
    pub fn start_raw_evidence_refinement(
        &mut self,
        request: &RawEvidenceRefinementRequest,
        job_id: &str,
        now: &str,
    ) -> (r: Result<RefinementInput, RssError>)
        requires
            old(self).wf(),
        ensures
            final(self).wf(),
            if !old(self)@.sessions.contains_key(request.scan_id@) {
                final(self)@ == old(self)@ && (r matches Err(e) && message_of(e) == scan_missing(
                    request.scan_id@,
                ))
            } else {
                let s = old(self)@.sessions[request.scan_id@];
                match refinement_refusal(s, request.scan_id@, request.source_id@) {
                    Some(refusal) => final(self)@ == old(self)@ && (r matches Err(e)
                        && message_of(e) == refusal),
                    None => {
                        &&& r matches Ok(input)
                        &&& input.source == s.source
                        &&& record_views(input.results@) == s.results
                        &&& final(self)@ == with_raw_job(
                            with_scan(old(self)@, request.scan_id@, refining(s, now@)),
                            job_id@,
                            queued_job(job_id@, request.scan_id@, request.source_id@, now@),
                        )
                    },
                }
            },
    {
        match self.sessions.get(request.scan_id.as_str()) {
            None => {
                return Err(
                    RssError::Message(concat3("Scan ", request.scan_id.as_str(), " not found")),
                );
            },
            Some(session) => {
                if let Err(e) = session.check_refinement(request) {
                    return Err(e);
                }
            },
        }
        match self.take_scan(request.scan_id.as_str()) {
            Some(mut session) => {
                session.begin_refinement(now);
                let input = RefinementInput {
                    source: session.source.clone(),
                    results: clone_records(&session.results),
                };
                let ghost after = session@;
                self.put_scan(request.scan_id.as_str(), session);
                assert(self@ =~= with_scan(old(self)@, request.scan_id@, after));
                self.put_raw_job(
                    job_id,
                    RawEvidenceJob::queued(
                        job_id,
                        request.scan_id.as_str(),
                        request.source_id.as_str(),
                        now,
                    ),
                );
                Ok(input)
            },
            None => Err(
                RssError::Message(concat3("Scan ", request.scan_id.as_str(), " not found")),
            ),
        }
    }

    /// How far a refinement is.
    pub fn raw_evidence_progress(&self, job_id: &str) -> (r: Result<
        RawEvidenceRefinementProgress,
        RssError,
    >)
        requires
            self.wf(),
        ensures
            if self@.raw_jobs.contains_key(job_id@) {
                r matches Ok(progress) && progress@ == self@.raw_jobs[job_id@].progress
            } else {
                r matches Err(e) && message_of(e) == raw_job_missing(job_id@)
            },
    {
        match self.raw_evidence_jobs.get(job_id) {
            Some(job) => Ok(job.progress.clone()),
            None => Err(RssError::Message(concat3("Raw evidence job ", job_id, " not found"))),
        }
    }

    /// Asks a refinement to stop.
    pub fn cancel_raw_evidence_refinement(&mut self, job_id: &str, now: &str) -> (r: Result<
        (),
        RssError,
    >)
        requires
            old(self).wf(),
        ensures
            final(self).wf(),
            if old(self)@.raw_jobs.contains_key(job_id@) {
                r is Ok && final(self)@ == with_raw_job(
                    old(self)@,
                    job_id@,
                    cancelled_job(old(self)@.raw_jobs[job_id@], now@),
                )
            } else {
                final(self)@ == old(self)@ && (r matches Err(e) && message_of(e)
                    == raw_job_missing(job_id@))
            },
    {
        match self.take_raw_job(job_id) {
            Some(mut job) => {
                job.request_cancel(now);
                let ghost after = job@;
                self.put_raw_job(job_id, job);
                assert(self@ =~= with_raw_job(old(self)@, job_id@, after));
                Ok(())
            },
            None => Err(RssError::Message(concat3("Raw evidence job ", job_id, " not found"))),
        }
    }

    /// Whether a refinement was asked to stop.
    pub fn is_refinement_cancelled(&self, job_id: &str) -> (r: bool)
        requires
            self.wf(),
        ensures
            r == asked_to_stop(self@, job_id@),
    {
        match self.raw_evidence_jobs.get(job_id) {
            Some(job) => job.cancel,
            None => false,
        }
    }

    /// Takes in how far a refinement is.
    pub fn update_raw_evidence_progress(
        &mut self,
        job_id: &str,
        state: AsyncJobState,
        phase: RawEvidenceRefinementPhase,
        processed_units: u64,
        total_units: Option<u64>,
        message: &str,
        warnings: Vec<String>,
        now: &str,
    )
        requires
            old(self).wf(),
        ensures
            final(self).wf(),
            final(self)@ == job_advanced(
                old(self)@,
                job_id@,
                state,
                phase,
                processed_units,
                total_units,
                message@,
                views(warnings@),
                now@,
            ),
    {
        if let Some(mut job) = self.take_raw_job(job_id) {
            job.advance(state, phase, processed_units, total_units, message, warnings, now);
            let ghost after = job@;
            self.put_raw_job(job_id, job);
            assert(self@ =~= with_raw_job(old(self)@, job_id@, after));
        }
    }

    /// Takes in the report of a stage, and tells whether the refinement goes on.
    pub fn report_refinement_stage(
        &mut self,
        job_id: &str,
        stage: &str,
        processed_units: u64,
        total_units: Option<u64>,
        now: &str,
    ) -> (r: bool)
        requires
            old(self).wf(),
        ensures
            final(self).wf(),
            r == !asked_to_stop(old(self)@, job_id@),
            final(self)@ == job_advanced(
                old(self)@,
                job_id@,
                AsyncJobState::Running,
                phase_of_stage(stage@),
                processed_units,
                total_units,
                message_of_stage(stage@),
                seq![],
                now@,
            ),
    {
        let message = raw_evidence_stage_message(stage);
        let none: Vec<String> = Vec::new();
        assert(views(none@) =~= seq![]);
        self.update_raw_evidence_progress(
            job_id,
            AsyncJobState::Running,
            raw_evidence_phase_from_stage(stage),
            processed_units,
            total_units,
            message.as_str(),
            none,
            now,
        );
        !self.is_refinement_cancelled(job_id)
    }

    /// Closes a refinement that gave no results.
    pub fn finish_raw_evidence_job(
        &mut self,
        job_id: &str,
        scan_id: &str,
        raw_state: RawEvidenceState,
        job_state: AsyncJobState,
        message: &str,
        warnings: Vec<String>,
        now: &str,
    )
        requires
            old(self).wf(),
        ensures
            final(self).wf(),
            final(self)@ == refinement_closed(
                old(self)@,
                job_id@,
                scan_id@,
                raw_state,
                job_state,
                message@,
                views(warnings@),
                now@,
            ),
    {
        self.update_raw_evidence_progress(
            job_id,
            job_state,
            RawEvidenceRefinementPhase::Done,
            0,
            None,
            message,
            warnings,
            now,
        );
        let ghost told = self@;
        if let Some(mut session) = self.take_scan(scan_id) {
            session.drop_refinement(raw_state, message, now);
            let ghost after = session@;
            self.put_scan(scan_id, session);
            assert(self@ =~= with_scan(told, scan_id@, after));
        }
    }

    /// Takes in the results of a refinement.
    pub fn complete_raw_evidence_refinement(
        &mut self,
        job_id: &str,
        scan_id: &str,
        results: Vec<ArtifactRecord>,
        raw_state: RawEvidenceState,
        warnings: Vec<String>,
        now: &str,
    ) -> (r: Result<Vec<DeletedArtifactLocator>, RssError>)
        requires
            old(self).wf(),
        ensures
            final(self).wf(),
            if old(self)@.sessions.contains_key(scan_id@) {
                &&& r matches Ok(locators)
                &&& locates_deleted(locators@, results@)
                &&& final(self)@ == refinement_taken(
                    old(self)@,
                    job_id@,
                    scan_id@,
                    record_views(results@),
                    raw_state,
                    views(warnings@),
                    locators@.len() as u64,
                    now@,
                )
            } else {
                final(self)@ == old(self)@ && (r matches Err(e) && message_of(e) == "Scan "@
                    + scan_id@ + " disappeared during raw evidence completion"@)
            },
    {
        match self.take_scan(scan_id) {
            Some(mut session) => {
                let locators = session.take_refined(results, raw_state, now);
                let ghost after = session@;
                self.put_scan(scan_id, session);
                assert(self@ =~= with_scan(old(self)@, scan_id@, after));
                let count: u64 = locators.len() as u64;
                self.update_raw_evidence_progress(
                    job_id,
                    AsyncJobState::Completed,
                    RawEvidenceRefinementPhase::Done,
                    count,
                    Some(count),
                    refinement_message(raw_state),
                    warnings,
                    now,
                );
                Ok(locators)
            },
            None => Err(
                RssError::Message(
                    concat3("Scan ", scan_id, " disappeared during raw evidence completion"),
                ),
            ),
        }
    }

    /// Takes in how the work of a refinement ended: its results where it came to its end and
    /// nobody asked it to stop.
    pub fn end_raw_evidence_refinement(
        &mut self,
        job_id: &str,
        scan_id: &str,
        outcome: RefineOutcome,
        results: Vec<ArtifactRecord>,
        warnings: Vec<String>,
        now: &str,
    ) -> (r: Option<Vec<DeletedArtifactLocator>>)
        requires
            old(self).wf(),
        ensures
            final(self).wf(),
            refinement_ended(
                old(self)@,
                final(self)@,
                job_id@,
                scan_id@,
                outcome,
                results@,
                views(warnings@),
                r,
                now@,
            ),
    {
        let cancelled: bool = self.is_refinement_cancelled(job_id);
        let mut warnings = warnings;
        let ghost given = views(warnings@);
        let end = conclude_refinement(outcome, cancelled, &mut warnings);
        let ghost left = views(warnings@);
        assert(ends_as(outcome, asked_to_stop(old(self)@, job_id@), given, end, left));
        match end {
            RefinementEnd::Complete { raw_state } => {
                match self.complete_raw_evidence_refinement(
                    job_id,
                    scan_id,
                    results,
                    raw_state,
                    warnings,
                    now,
                ) {
                    Ok(locators) => Some(locators),
                    Err(_) => None,
                }
            },
            RefinementEnd::Close { raw_state, job_state, message } => {
                self.finish_raw_evidence_job(
                    job_id,
                    scan_id,
                    raw_state,
                    job_state,
                    message.as_str(),
                    warnings,
                    now,
                );
                None
            },
        }
    }
}

/// The records of those that were asked for.
fn select_records(records: &Vec<ArtifactRecord>, ids: &Vec<String>) -> (r: Vec<ArtifactRecord>)
    ensures
        record_views(r@) == kept(record_views(records@), is_selected(views(ids@))),
{
    let ghost all = record_views(records@);
    let ghost test = is_selected(views(ids@));
    let mut out: Vec<ArtifactRecord> = Vec::new();
    let mut i: usize = 0;
    proof {
        assert(all.subrange(0, 0) =~= seq![]);
        assert(record_views(out@) =~= seq![]);
    }
    while i < records.len()
        invariant
            i <= records@.len(),
            all == record_views(records@),
            test == is_selected(views(ids@)),
            record_views(out@) == kept(all.subrange(0, i as int), test),
        decreases records@.len() - i,
    {
        let record = &records[i];
        let ghost before = record_views(out@);
        proof {
            assert(all.subrange(0, i + 1).drop_last() =~= all.subrange(0, i as int));
            assert(all.subrange(0, i + 1).last() == record@);
        }
        if contains_string(ids, record.id.as_str()) {
            let copy = record.clone();
            proof {
                lemma_same_view(*record, copy);
            }
            out.push(copy);
            assert(record_views(out@) =~= before.push(record@));
        }
        i += 1;
    }
    assert(all.subrange(0, i as int) =~= all);
    out
}

proof fn lemma_batch_keeps_cache(s: ScanView, batch: Seq<ArtifactView>)
    ensures
        with_batch(s, batch).cache == s.cache,
    decreases batch.len(),
{
    if batch.len() > 0 {
        lemma_batch_keeps_cache(s, batch.drop_last());
    }
}

/// The state with a refinement further on its way; nothing happens where the job is not there.
pub open spec fn job_advanced(
    b: BridgeView,
    job_id: Seq<char>,
    state: AsyncJobState,
    phase: RawEvidenceRefinementPhase,
    processed_units: u64,
    total_units: Option<u64>,
    message: Seq<char>,
    warnings: Seq<Seq<char>>,
    now: Seq<char>,
) -> BridgeView {
    if b.raw_jobs.contains_key(job_id) {
        with_raw_job(
            b,
            job_id,
            advanced_job(
                b.raw_jobs[job_id],
                state,
                phase,
                processed_units,
                total_units,
                message,
                warnings,
                now,
            ),
        )
    } else {
        b
    }
}

/// The state after a refinement that gave no results.
pub open spec fn refinement_closed(
    b: BridgeView,
    job_id: Seq<char>,
    scan_id: Seq<char>,
    raw_state: RawEvidenceState,
    job_state: AsyncJobState,
    message: Seq<char>,
    warnings: Seq<Seq<char>>,
    now: Seq<char>,
) -> BridgeView {
    let told = job_advanced(
        b,
        job_id,
        job_state,
        RawEvidenceRefinementPhase::Done,
        0,
        None,
        message,
        warnings,
        now,
    );
    if b.sessions.contains_key(scan_id) {
        with_scan(told, scan_id, not_refined(b.sessions[scan_id], raw_state, message, now))
    } else {
        told
    }
}

/// The state with the results of a refinement.
pub open spec fn refinement_taken(
    b: BridgeView,
    job_id: Seq<char>,
    scan_id: Seq<char>,
    results: Seq<ArtifactView>,
    raw_state: RawEvidenceState,
    warnings: Seq<Seq<char>>,
    placed: u64,
    now: Seq<char>,
) -> BridgeView {
    job_advanced(
        with_scan(b, scan_id, refined(b.sessions[scan_id], results, raw_state, now)),
        job_id,
        AsyncJobState::Completed,
        RawEvidenceRefinementPhase::Done,
        placed,
        Some(placed),
        refined_message(raw_state),
        warnings,
        now,
    )
}

/// Whether a refinement was asked to stop.
pub open spec fn asked_to_stop(b: BridgeView, job_id: Seq<char>) -> bool {
    b.raw_jobs.contains_key(job_id) && b.raw_jobs[job_id].cancel
}

/// The state after the work of a refinement.
pub open spec fn refinement_ended(
    b: BridgeView,
    after: BridgeView,
    job_id: Seq<char>,
    scan_id: Seq<char>,
    outcome: RefineOutcome,
    results: Seq<ArtifactRecord>,
    warnings: Seq<Seq<char>>,
    placed: Option<Vec<DeletedArtifactLocator>>,
    now: Seq<char>,
) -> bool {
    exists|end: RefinementEnd, left: Seq<Seq<char>>| #[trigger]
        ends_as(outcome, asked_to_stop(b, job_id), warnings, end, left) && match end {
            RefinementEnd::Complete { raw_state } => if b.sessions.contains_key(scan_id) {
                &&& placed matches Some(locators)
                &&& locates_deleted(locators@, results)
                &&& after == refinement_taken(
                    b,
                    job_id,
                    scan_id,
                    record_views(results),
                    raw_state,
                    left,
                    locators@.len() as u64,
                    now,
                )
            } else {
                placed is None && after == b
            },
            RefinementEnd::Close { raw_state, job_state, message } => placed is None && after
                == refinement_closed(
                b,
                job_id,
                scan_id,
                raw_state,
                job_state,
                message@,
                left,
                now,
            ),
        }
}

// ---------------------------------------------------------------------------
// Laws.

/// What happens to one scan leaves all others as they are.
pub proof fn lemma_scans_do_not_disturb_each_other(
    b: BridgeView,
    scan_id: Seq<char>,
    other: Seq<char>,
    s: ScanView,
)
    requires
        scan_id != other,
    ensures
        with_scan(b, scan_id, s).sessions.contains_key(other) == b.sessions.contains_key(other),
        b.sessions.contains_key(other) ==> with_scan(b, scan_id, s).sessions[other]
            == b.sessions[other],
{
}

/// A refinement that was asked to stop does not change the results of its scan.
pub proof fn lemma_cancelled_refinement_keeps_results(
    b: BridgeView,
    after: BridgeView,
    job_id: Seq<char>,
    scan_id: Seq<char>,
    outcome: RefineOutcome,
    results: Seq<ArtifactRecord>,
    warnings: Seq<Seq<char>>,
    placed: Option<Vec<DeletedArtifactLocator>>,
    now: Seq<char>,
)
    requires
        refinement_ended(b, after, job_id, scan_id, outcome, results, warnings, placed, now),
        asked_to_stop(b, job_id),
        b.sessions.contains_key(scan_id),
    ensures
        after.sessions.contains_key(scan_id),
        after.sessions[scan_id].results == b.sessions[scan_id].results,
        after.sessions[scan_id].progress.raw_evidence_state != RawEvidenceState::Running,
{
}

} // verus!
