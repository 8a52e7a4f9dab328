//! Jobs and open previews in the state behind the user interface.

use crate::bridge::{lemma_seen, seen, BridgeState, BridgeView, PreviewSession};
use crate::jobs::{
    cancelled, finished, job_answer, new_job, set_in_state, told_result, Job, JobView,
};
use crate::model::{
    message_of, ArchivePreviewPage, AsyncJobState, AsyncJobStatus, ContentPreviewResponse,
    PreviewChunkResponse, PreviewSessionInfo, RssError, SourceEntryDetails,
};
use crate::preview_reads::bytes_result;
use crate::preview_session::{
    chunk_needs_read, chunk_range, chunk_result, chunk_window, fits_window, is_archive_page,
    is_session_info, needs_chunk_read, read_archive_page, read_preview_chunk, session_info,
    target_chunk, PreparedPreviewSession, PreviewSessionTarget,
};
use crate::table::Table;
use crate::text::{concat2, concat3, opt_view, owned, views};
use vstd::prelude::*;
use vstd::string::*;

verus! {

/// How the work of a job ended.
pub enum Work<T> {
    Ran(Result<T, RssError>),
    Panicked,
}

/// What the work of a job gave; a panic counts as an error with a text of its own.
pub open spec fn work_result<T>(work: Work<T>, panic_text: Seq<char>) -> Result<T, Seq<char>> {
    match work {
        Work::Ran(result) => told_result(result),
        Work::Panicked => Err(panic_text),
    }
}

/// What is said of a job that is not there.
pub open spec fn job_missing(kind: Seq<char>, job_id: Seq<char>) -> Seq<char> {
    kind + " job "@ + job_id + " not found"@
}

/// What is said of a preview that is not open.
pub open spec fn preview_missing(session_id: Seq<char>) -> Seq<char> {
    "Preview session "@ + session_id + " not found"@
}

/// The jobs with another one.
pub open spec fn changed<T>(
    jobs: Map<Seq<char>, JobView<T>>,
    job_id: Seq<char>,
    job: JobView<T>,
) -> Map<Seq<char>, JobView<T>> {
    if jobs.contains_key(job_id) {
        jobs.insert(job_id, job)
    } else {
        jobs
    }
}

// ---------------------------------------------------------------------------
// Tables of jobs.

fn add_job<T>(jobs: &mut Table<Job<T>>, job_id: &str, now: &str)
    requires
        old(jobs).wf(),
    ensures
        final(jobs).wf(),
        seen(final(jobs)@) == seen(old(jobs)@).insert(
            job_id@,
            new_job(job_id@, now@),
        ),
{
    let job: Job<T> = Job::new(job_id, now);
    proof {
        lemma_seen(jobs@, job_id@, job);
    }
    jobs.insert(job_id, job);
}

fn set_job_state<T>(
    jobs: &mut Table<Job<T>>,
    job_id: &str,
    state: AsyncJobState,
    error: Option<String>,
    now: &str,
)
    requires
        old(jobs).wf(),
    ensures
        final(jobs).wf(),
        seen(final(jobs)@) == changed(
            seen(old(jobs)@),
            job_id@,
            set_in_state(seen(old(jobs)@)[job_id@], state, opt_view(error), now@),
        ),
{
    if !jobs.contains_key(job_id) {
        return;
    }
    let ghost before = jobs@;
    if let Some(mut job) = jobs.remove(job_id) {
        job.set_state(state, error, now);
        proof {
            lemma_seen(before, job_id@, before[job_id@]);
            lemma_seen(jobs@, job_id@, job);
        }
        jobs.insert(job_id, job);
        assert(seen(jobs@) =~= seen(before).insert(job_id@, job@));
    }
}

fn finish_job<T>(jobs: &mut Table<Job<T>>, job_id: &str, result: Result<T, RssError>, now: &str)
    requires
        old(jobs).wf(),
    ensures
        final(jobs).wf(),
        seen(final(jobs)@) == changed(
            seen(old(jobs)@),
            job_id@,
            finished(seen(old(jobs)@)[job_id@], told_result(result), now@),
        ),
{
    if !jobs.contains_key(job_id) {
        return;
    }
    let ghost before = jobs@;
    if let Some(mut job) = jobs.remove(job_id) {
        job.finish(result, now);
        proof {
            lemma_seen(before, job_id@, before[job_id@]);
            lemma_seen(jobs@, job_id@, job);
        }
        jobs.insert(job_id, job);
        assert(seen(jobs@) =~= seen(before).insert(job_id@, job@));
    }
}

fn cancel_job<T>(jobs: &mut Table<Job<T>>, job_id: &str, now: &str) -> (r: bool)
    requires
        old(jobs).wf(),
    ensures
        final(jobs).wf(),
        r == seen(old(jobs)@).contains_key(job_id@),
        seen(final(jobs)@) == changed(
            seen(old(jobs)@),
            job_id@,
            cancelled(seen(old(jobs)@)[job_id@], now@),
        ),
{
    if !jobs.contains_key(job_id) {
        return false;
    }
    let ghost before = jobs@;
    if let Some(mut job) = jobs.remove(job_id) {
        job.request_cancel(now);
        proof {
            lemma_seen(before, job_id@, before[job_id@]);
            lemma_seen(jobs@, job_id@, job);
        }
        jobs.insert(job_id, job);
        assert(seen(jobs@) =~= seen(before).insert(job_id@, job@));
    }
    true
}

fn missing_job(kind: &str, job_id: &str) -> (r: RssError)
    ensures
        message_of(r) == job_missing(kind@, job_id@),
{
    let front = concat3(kind, " job ", job_id);
    RssError::Message(concat2(front.as_str(), " not found"))
}

fn status_of_job<T>(jobs: &Table<Job<T>>, kind: &str, job_id: &str) -> (r: Result<
    AsyncJobStatus,
    RssError,
>)
    requires
        jobs.wf(),
    ensures
        if seen(jobs@).contains_key(job_id@) {
            r matches Ok(status) && status@ == seen(jobs@)[job_id@].status
        } else {
            r matches Err(e) && message_of(e) == job_missing(kind@, job_id@)
        },
{
    match jobs.get(job_id) {
        Some(job) => Ok(job.status.clone()),
        None => Err(missing_job(kind, job_id)),
    }
}

fn result_of_job<'a, T>(jobs: &'a Table<Job<T>>, kind: &str, job_id: &str) -> (r: Result<
    &'a T,
    RssError,
>)
    requires
        jobs.wf(),
    ensures
        answered(seen(jobs@), kind@, job_id@, r),
{
    match jobs.get(job_id) {
        Some(job) => job.answer(kind, job_id),
        None => Err(missing_job(kind, job_id)),
    }
}

/// What is answered to a question for the result of a job.
pub open spec fn answered<T>(
    jobs: Map<Seq<char>, JobView<T>>,
    kind: Seq<char>,
    job_id: Seq<char>,
    r: Result<&T, RssError>,
) -> bool {
    if jobs.contains_key(job_id) {
        match (r, job_answer(jobs[job_id], kind, job_id)) {
            (Ok(value), Ok(told)) => *value == told,
            (Err(e), Err(told)) => message_of(e) == told,
            _ => false,
        }
    } else {
        r matches Err(e) && message_of(e) == job_missing(kind, job_id)
    }
}

impl BridgeState {
    // -----------------------------------------------------------------------
    // Entry details.

    pub fn start_entry_details_job(&mut self, job_id: &str, now: &str)
        requires
            old(self).wf(),
        ensures
            final(self).wf(),
            final(self)@ == (BridgeView {
                details_jobs: old(self)@.details_jobs.insert(job_id@, new_job(job_id@, now@)),
                ..old(self)@
            }),
    {
        add_job(&mut self.entry_details_jobs, job_id, now);
    }

    pub fn entry_details_job_status(&self, job_id: &str) -> (r: Result<AsyncJobStatus, RssError>)
        requires
            self.wf(),
        ensures
            if self@.details_jobs.contains_key(job_id@) {
                r matches Ok(status) && status@ == self@.details_jobs[job_id@].status
            } else {
                r matches Err(e) && message_of(e) == job_missing("Entry details"@, job_id@)
            },
    {
        status_of_job(&self.entry_details_jobs, "Entry details", job_id)
    }

    pub fn entry_details_job_result(&self, job_id: &str) -> (r: Result<
        &SourceEntryDetails,
        RssError,
    >)
        requires
            self.wf(),
        ensures
            answered(self@.details_jobs, "Entry details"@, job_id@, r),
    {
        result_of_job(&self.entry_details_jobs, "Entry details", job_id)
    }

    pub fn cancel_entry_details_job(&mut self, job_id: &str, now: &str) -> (r: Result<(), RssError>)
        requires
            old(self).wf(),
        ensures
            final(self).wf(),
            final(self)@ == (BridgeView {
                details_jobs: changed(
                    old(self)@.details_jobs,
                    job_id@,
                    cancelled(old(self)@.details_jobs[job_id@], now@),
                ),
                ..old(self)@
            }),
            match r {
                Ok(_) => old(self)@.details_jobs.contains_key(job_id@),
                Err(e) => !old(self)@.details_jobs.contains_key(job_id@) && message_of(e)
                    == job_missing("Entry details"@, job_id@),
            },
    {
        if cancel_job(&mut self.entry_details_jobs, job_id, now) {
            Ok(())
        } else {
            Err(missing_job("Entry details", job_id))
        }
    }

    pub fn set_entry_details_job_state(
        &mut self,
        job_id: &str,
        state: AsyncJobState,
        error: Option<String>,
        now: &str,
    )
        requires
            old(self).wf(),
        ensures
            final(self).wf(),
            final(self)@ == (BridgeView {
                details_jobs: changed(
                    old(self)@.details_jobs,
                    job_id@,
                    set_in_state(old(self)@.details_jobs[job_id@], state, opt_view(error), now@),
                ),
                ..old(self)@
            }),
    {
        set_job_state(&mut self.entry_details_jobs, job_id, state, error, now);
    }

    pub fn finish_entry_details_job(
        &mut self,
        job_id: &str,
        work: Work<SourceEntryDetails>,
        now: &str,
    )
        requires
            old(self).wf(),
        ensures
            final(self).wf(),
            final(self)@ == (BridgeView {
                details_jobs: changed(
                    old(self)@.details_jobs,
                    job_id@,
                    finished(
                        old(self)@.details_jobs[job_id@],
                        work_result(work, "Entry details job panicked while reading metadata"@),
                        now@,
                    ),
                ),
                ..old(self)@
            }),
    {
        let result = match work {
            Work::Ran(result) => result,
            Work::Panicked => Err(
                RssError::Message(owned("Entry details job panicked while reading metadata")),
            ),
        };
        finish_job(&mut self.entry_details_jobs, job_id, result, now);
    }

    // -----------------------------------------------------------------------
    // Previews in the background.

    pub fn start_preview_job(&mut self, job_id: &str, now: &str)
        requires
            old(self).wf(),
        ensures
            final(self).wf(),
            final(self)@ == (BridgeView {
                preview_jobs: old(self)@.preview_jobs.insert(job_id@, new_job(job_id@, now@)),
                ..old(self)@
            }),
    {
        add_job(&mut self.preview_jobs, job_id, now);
    }

    pub fn preview_job_status(&self, job_id: &str) -> (r: Result<AsyncJobStatus, RssError>)
        requires
            self.wf(),
        ensures
            if self@.preview_jobs.contains_key(job_id@) {
                r matches Ok(status) && status@ == self@.preview_jobs[job_id@].status
            } else {
                r matches Err(e) && message_of(e) == job_missing("Preview"@, job_id@)
            },
    {
        status_of_job(&self.preview_jobs, "Preview", job_id)
    }

    pub fn preview_job_result(&self, job_id: &str) -> (r: Result<&ContentPreviewResponse, RssError>)
        requires
            self.wf(),
        ensures
            answered(self@.preview_jobs, "Preview"@, job_id@, r),
    {
        result_of_job(&self.preview_jobs, "Preview", job_id)
    }

    pub fn cancel_preview_job(&mut self, job_id: &str, now: &str) -> (r: Result<(), RssError>)
        requires
            old(self).wf(),
        ensures
            final(self).wf(),
            final(self)@ == (BridgeView {
                preview_jobs: changed(
                    old(self)@.preview_jobs,
                    job_id@,
                    cancelled(old(self)@.preview_jobs[job_id@], now@),
                ),
                ..old(self)@
            }),
            match r {
                Ok(_) => old(self)@.preview_jobs.contains_key(job_id@),
                Err(e) => !old(self)@.preview_jobs.contains_key(job_id@) && message_of(e)
                    == job_missing("Preview"@, job_id@),
            },
    {
        if cancel_job(&mut self.preview_jobs, job_id, now) {
            Ok(())
        } else {
            Err(missing_job("Preview", job_id))
        }
    }

    pub fn set_preview_job_state(
        &mut self,
        job_id: &str,
        state: AsyncJobState,
        error: Option<String>,
        now: &str,
    )
        requires
            old(self).wf(),
        ensures
            final(self).wf(),
            final(self)@ == (BridgeView {
                preview_jobs: changed(
                    old(self)@.preview_jobs,
                    job_id@,
                    set_in_state(old(self)@.preview_jobs[job_id@], state, opt_view(error), now@),
                ),
                ..old(self)@
            }),
    {
        set_job_state(&mut self.preview_jobs, job_id, state, error, now);
    }

    pub fn finish_preview_job(
        &mut self,
        job_id: &str,
        work: Work<ContentPreviewResponse>,
        now: &str,
    )
        requires
            old(self).wf(),
        ensures
            final(self).wf(),
            final(self)@ == (BridgeView {
                preview_jobs: changed(
                    old(self)@.preview_jobs,
                    job_id@,
                    finished(
                        old(self)@.preview_jobs[job_id@],
                        work_result(work, "Preview job panicked while reading content"@),
                        now@,
                    ),
                ),
                ..old(self)@
            }),
    {
        let result = match work {
            Work::Ran(result) => result,
            Work::Panicked => Err(
                RssError::Message(owned("Preview job panicked while reading content")),
            ),
        };
        finish_job(&mut self.preview_jobs, job_id, result, now);
    }

    // -----------------------------------------------------------------------
    // Open previews.

    /// Keeps a preview that was prepared, and gives what it offers.
    pub fn open_preview_session(
        &mut self,
        prepared: PreparedPreviewSession,
        target: PreviewSessionTarget,
        session_id: &str,
    ) -> (r: PreviewSessionInfo)
        requires
            old(self).wf(),
        ensures
            final(self).wf(),
            is_session_info(r, session_id@, prepared),
            final(self)@ == (BridgeView {
                previews: old(self)@.previews.insert(
                    session_id@,
                    (PreviewSession { prepared, target }),
                ),
                ..old(self)@
            }),
    {
        let info = session_info(session_id, &prepared);
        self.preview_sessions.insert(session_id, PreviewSession { prepared, target });
        info
    }

    /// The window of the content that a chunk of a preview needs, if it needs one.
    pub fn preview_chunk_range(&self, session_id: &str, offset: u64, length: u64) -> (r: Result<
        Option<(u64, u64)>,
        RssError,
    >)
        requires
            self.wf(),
        ensures
            if self@.previews.contains_key(session_id@) {
                let session = self@.previews[session_id@];
                r matches Ok(range) && range == if chunk_needs_read(
                    session.target,
                    session.prepared@,
                ) {
                    Some(chunk_window(session.prepared@, offset, length))
                } else {
                    None
                }
            } else {
                r matches Err(e) && message_of(e) == preview_missing(session_id@)
            },
    {
        match self.preview_sessions.get(session_id) {
            Some(session) => if needs_chunk_read(&session.target, &session.prepared) {
                Ok(Some(chunk_range(&session.prepared, offset, length)))
            } else {
                Ok(None)
            },
            None => Err(
                RssError::Message(concat3("Preview session ", session_id, " not found")),
            ),
        }
    }

    /// A chunk of a preview, from the read of its window.
    pub fn read_preview_chunk(
        &self,
        session_id: &str,
        offset: u64,
        length: u64,
        read: Result<Vec<u8>, RssError>,
    ) -> (r: Result<PreviewChunkResponse, RssError>)
        requires
            self.wf(),
            self@.previews.contains_key(session_id@) ==> fits_window(
                bytes_result(read),
                chunk_window(self@.previews[session_id@].prepared@, offset, length).1,
            ),
        ensures
            if self@.previews.contains_key(session_id@) {
                let session = self@.previews[session_id@];
                chunk_result(r) == target_chunk(
                    session.target,
                    session.prepared@,
                    session_id@,
                    chunk_window(session.prepared@, offset, length).0,
                    bytes_result(read),
                )
            } else {
                r matches Err(e) && message_of(e) == preview_missing(session_id@)
            },
    {
        match self.preview_sessions.get(session_id) {
            Some(session) => read_preview_chunk(
                session_id,
                &session.target,
                &session.prepared,
                offset,
                length,
                read,
            ),
            None => Err(
                RssError::Message(concat3("Preview session ", session_id, " not found")),
            ),
        }
    }

    /// A page of the members of an archive.
    pub fn read_archive_page(&self, session_id: &str, offset: usize, limit: usize) -> (r: Result<
        ArchivePreviewPage,
        RssError,
    >)
        requires
            self.wf(),
        ensures
            if self@.previews.contains_key(session_id@) {
                let prepared = self@.previews[session_id@].prepared;
                match prepared.archive_listing {
                    Some(listing) => r matches Ok(page) && is_archive_page(
                        page,
                        session_id@,
                        prepared.target_key@,
                        listing,
                        offset,
                        limit,
                        views(prepared.warnings@),
                    ),
                    None => r matches Err(e) && message_of(e) == "Preview session "@ + session_id@
                        + " does not expose archive entries"@,
                }
            } else {
                r matches Err(e) && message_of(e) == preview_missing(session_id@)
            },
    {
        let session = match self.preview_sessions.get(session_id) {
            Some(session) => session,
            None => {
                return Err(
                    RssError::Message(concat3("Preview session ", session_id, " not found")),
                );
            },
        };
        match &session.prepared.archive_listing {
            Some(listing) => Ok(
                read_archive_page(
                    session_id,
                    session.prepared.target_key.as_str(),
                    listing,
                    offset,
                    limit,
                    &session.prepared.warnings,
                ),
            ),
            None => Err(
                RssError::Message(
                    concat3("Preview session ", session_id, " does not expose archive entries"),
                ),
            ),
        }
    }

    pub fn close_preview_session(&mut self, session_id: &str)
        requires
            old(self).wf(),
        ensures
            final(self).wf(),
            final(self)@ == (BridgeView {
                previews: old(self)@.previews.remove(session_id@),
                ..old(self)@
            }),
    {
        let _ = self.preview_sessions.remove(session_id);
    }
}

} // verus!
