//! Background jobs that compute one answer each.

use crate::model::{message_of, AsyncJobState, AsyncJobStatus, RssError};
use crate::text::{concat4, opt_view, owned};
use vstd::prelude::*;
use vstd::string::*;

verus! {

/// What the status of a job says.
#[verifier::ext_equal]
pub ghost struct StatusView {
    pub job_id: Seq<char>,
    pub state: AsyncJobState,
    pub created_at: Seq<char>,
    pub updated_at: Seq<char>,
    pub error: Option<Seq<char>>,
}

impl View for AsyncJobStatus {
    type V = StatusView;

    open spec fn view(&self) -> StatusView {
        StatusView {
            job_id: self.job_id@,
            state: self.state,
            created_at: self.created_at@,
            updated_at: self.updated_at@,
            error: opt_view(self.error),
        }
    }
}

/// The status of a job that waits to start.
pub open spec fn pending(job_id: Seq<char>, now: Seq<char>) -> StatusView {
    StatusView {
        job_id,
        state: AsyncJobState::Pending,
        created_at: now,
        updated_at: now,
        error: None,
    }
}

pub fn new_job_status(job_id: &str, now: &str) -> (r: AsyncJobStatus)
    ensures
        r@ == pending(job_id@, now@),
{
    AsyncJobStatus {
        job_id: owned(job_id),
        state: AsyncJobState::Pending,
        created_at: owned(now),
        updated_at: owned(now),
        error: None,
    }
}

/// The status in another state.
pub open spec fn in_state(
    s: StatusView,
    state: AsyncJobState,
    error: Option<Seq<char>>,
    now: Seq<char>,
) -> StatusView {
    StatusView { state, updated_at: now, error, ..s }
}

pub fn transition_job_status(
    status: &mut AsyncJobStatus,
    state: AsyncJobState,
    error: Option<String>,
    now: &str,
)
    ensures
        final(status)@ == in_state(old(status)@, state, opt_view(error), now@),
{
    status.state = state;
    status.updated_at = owned(now);
    status.error = error;
}

/// A job, whether it was asked to stop, and its answer.
#[derive(Debug)]
pub struct Job<T> {
    pub cancel: bool,
    pub status: AsyncJobStatus,
    pub result: Option<T>,
}

/// What is known of a job.
#[verifier::ext_equal]
pub ghost struct JobView<T> {
    pub cancel: bool,
    pub status: StatusView,
    pub result: Option<T>,
}

impl<T> View for Job<T> {
    type V = JobView<T>;

    open spec fn view(&self) -> JobView<T> {
        JobView { cancel: self.cancel, status: self.status@, result: self.result }
    }
}

/// A job that waits to start.
pub open spec fn new_job<T>(job_id: Seq<char>, now: Seq<char>) -> JobView<T> {
    JobView { cancel: false, status: pending(job_id, now), result: None }
}

/// The job in another state; one that was cancelled stays so.
pub open spec fn set_in_state<T>(
    job: JobView<T>,
    state: AsyncJobState,
    error: Option<Seq<char>>,
    now: Seq<char>,
) -> JobView<T> {
    if job.cancel && job.status.state == AsyncJobState::Cancelled {
        job
    } else {
        JobView { status: in_state(job.status, state, error, now), ..job }
    }
}

/// The job with what its work gave; what a cancelled job gives is dropped.
pub open spec fn finished<T>(
    job: JobView<T>,
    result: Result<T, Seq<char>>,
    now: Seq<char>,
) -> JobView<T> {
    if job.cancel || job.status.state == AsyncJobState::Cancelled {
        JobView {
            status: in_state(job.status, AsyncJobState::Cancelled, None, now),
            result: None,
            ..job
        }
    } else {
        match result {
            Ok(value) => JobView {
                status: in_state(job.status, AsyncJobState::Completed, None, now),
                result: Some(value),
                ..job
            },
            Err(error) => JobView {
                status: in_state(job.status, AsyncJobState::Failed, Some(error), now),
                result: None,
                ..job
            },
        }
    }
}

/// The job that was asked to stop; one that is over keeps its answer.
pub open spec fn cancelled<T>(job: JobView<T>, now: Seq<char>) -> JobView<T> {
    match job.status.state {
        AsyncJobState::Pending | AsyncJobState::Running => JobView {
            cancel: true,
            status: in_state(job.status, AsyncJobState::Cancelled, None, now),
            result: None,
        },
        _ => JobView { cancel: true, ..job },
    }
}

/// What a job answers; `kind` is what such a job is called.
pub open spec fn job_answer<T>(job: JobView<T>, kind: Seq<char>, job_id: Seq<char>) -> Result<
    T,
    Seq<char>,
> {
    match job.status.state {
        AsyncJobState::Completed => match job.result {
            Some(value) => Ok(value),
            None => Err(kind + " job "@ + job_id + " has no result"@),
        },
        AsyncJobState::Failed => Err(
            match job.status.error {
                Some(error) => error,
                None => kind + " job "@ + job_id + " failed"@,
            },
        ),
        AsyncJobState::Cancelled => Err(kind + " job "@ + job_id + " was cancelled"@),
        AsyncJobState::Pending | AsyncJobState::Running => Err("job_not_ready"@),
    }
}

/// What a computation gave, with its error as text.
pub open spec fn told_result<T>(r: Result<T, RssError>) -> Result<T, Seq<char>> {
    match r {
        Ok(value) => Ok(value),
        Err(e) => Err(message_of(e)),
    }
}

impl<T> Job<T> {
    pub fn new(job_id: &str, now: &str) -> (r: Self)
        ensures
            r@ == new_job::<T>(job_id@, now@),
    {
        Job { cancel: false, status: new_job_status(job_id, now), result: None }
    }

    pub fn set_state(&mut self, state: AsyncJobState, error: Option<String>, now: &str)
        ensures
            final(self)@ == set_in_state(old(self)@, state, opt_view(error), now@),
    {
        if self.cancel && self.status.state == AsyncJobState::Cancelled {
            return;
        }
        transition_job_status(&mut self.status, state, error, now);
    }

    pub fn finish(&mut self, result: Result<T, RssError>, now: &str)
        ensures
            final(self)@ == finished(old(self)@, told_result(result), now@),
    {
        if self.cancel || self.status.state == AsyncJobState::Cancelled {
            transition_job_status(&mut self.status, AsyncJobState::Cancelled, None, now);
            self.result = None;
            return;
        }
        match result {
            Ok(value) => {
                transition_job_status(&mut self.status, AsyncJobState::Completed, None, now);
                self.result = Some(value);
            },
            Err(RssError::Message(error)) => {
                transition_job_status(&mut self.status, AsyncJobState::Failed, Some(error), now);
                self.result = None;
            },
        }
    }

    /// Asks the job to stop.
    pub fn request_cancel(&mut self, now: &str)
        ensures
            final(self)@ == cancelled(old(self)@, now@),
    {
        self.cancel = true;
        if self.status.state == AsyncJobState::Pending || self.status.state
            == AsyncJobState::Running {
            transition_job_status(&mut self.status, AsyncJobState::Cancelled, None, now);
            self.result = None;
        }
    }

    /// What the job answers.
    pub fn answer(&self, kind: &str, job_id: &str) -> (r: Result<&T, RssError>)
        ensures
            match (r, job_answer(self@, kind@, job_id@)) {
                (Ok(value), Ok(told)) => *value == told,
                (Err(e), Err(told)) => message_of(e) == told,
                _ => false,
            },
    {
        match self.status.state {
            AsyncJobState::Completed => match &self.result {
                Some(value) => Ok(value),
                None => Err(RssError::Message(concat4(kind, " job ", job_id, " has no result"))),
            },
            AsyncJobState::Failed => match &self.status.error {
                Some(error) => Err(RssError::Message(error.clone())),
                None => Err(RssError::Message(concat4(kind, " job ", job_id, " failed"))),
            },
            AsyncJobState::Cancelled => Err(
                RssError::Message(concat4(kind, " job ", job_id, " was cancelled")),
            ),
            _ => Err(RssError::Message(owned("job_not_ready"))),
        }
    }
}

// ---------------------------------------------------------------------------
// Laws.

/// A job that was cancelled before it was over never gives an answer, whatever its work brings
/// and whatever state it is set to on the way.
pub proof fn lemma_cancelled_jobs_stay_cancelled<T>(
    job: JobView<T>,
    kind: Seq<char>,
    job_id: Seq<char>,
    state: AsyncJobState,
    error: Option<Seq<char>>,
    result: Result<T, Seq<char>>,
    t1: Seq<char>,
    t2: Seq<char>,
    t3: Seq<char>,
)
    requires
        job.status.state == AsyncJobState::Pending || job.status.state == AsyncJobState::Running,
    ensures
        set_in_state(cancelled(job, t1), state, error, t2) == cancelled(job, t1),
        job_answer(finished(cancelled(job, t1), result, t3), kind, job_id) == Err::<T, _>(
            kind + " job "@ + job_id + " was cancelled"@,
        ),
{
}

/// A job that is left alone answers what its work gave.
pub proof fn lemma_jobs_answer_what_their_work_gave<T>(
    kind: Seq<char>,
    job_id: Seq<char>,
    result: Result<T, Seq<char>>,
    t1: Seq<char>,
    t2: Seq<char>,
    t3: Seq<char>,
)
    ensures
        ({
            let started = set_in_state(
                new_job::<T>(job_id, t1),
                AsyncJobState::Running,
                None,
                t2,
            );
            &&& job_answer(started, kind, job_id) == Err::<T, _>("job_not_ready"@)
            &&& job_answer(finished(started, result, t3), kind, job_id) == result
        }),
{
}

/// To cancel a job that has answered does not take its answer away.
pub proof fn lemma_answers_outlive_a_late_cancel<T>(
    job: JobView<T>,
    kind: Seq<char>,
    job_id: Seq<char>,
    now: Seq<char>,
)
    requires
        job.status.state == AsyncJobState::Completed || job.status.state == AsyncJobState::Failed,
    ensures
        job_answer(cancelled(job, now), kind, job_id) == job_answer(job, kind, job_id),
{
}

} // verus!
