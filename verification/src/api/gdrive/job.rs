//! Following one transfer job from submission to its final counters.
//!
//! The caller performs the HTTP exchanges and reports what came back; the
//! functions here decide what that means and what to do next. A job moves
//! through the types in one direction only: a `PendingJob` comes from an
//! accepted submission, a `FinishedJob` from a status that reports success,
//! and counters from a `FinishedJob`. Nothing is ever retried.

use vstd::prelude::*;
use crate::json::{integer_at, integer_member, json_string, quote};
use crate::text::{contains, decimal, extend_str, from_chars, joined, occurs_in, push_decimal};

verus! {

/// The backend call that tells the state of a job.
pub const STATUS_ENDPOINT: &'static str = "/job/status";

/// The backend call that tells the counters of a statistics group.
pub const STATS_ENDPOINT: &'static str = "/core/stats";

/// Seconds to wait between two status requests.
pub const POLL_INTERVAL_SECS: u64 = 1;

/// Outcome text when the backend went away while the job ran.
pub const SERVER_STOPPED: &'static str = "Download cancelled (server stopped)";

/// Outcome text when the backend no longer knows the job.
pub const JOB_VANISHED: &'static str = "Download cancelled";

/// Outcome text of a transfer that ran to its end.
pub const COMPLETED: &'static str = "Download completed successfully";

/// How many files a finished job checked, transferred and deleted, and how
/// many errors it met.
#[derive(Debug, Clone, Copy, PartialEq, Eq, Structural)]
pub struct SyncJobResult {
    pub deletes: i64,
    pub checks: i64,
    pub transfers: i64,
    pub errors: i64,
}

/// The count that was reported, or zero where none was.
pub open spec fn count_or_zero(count: Option<i64>) -> i64 {
    match count {
        Some(n) => n,
        None => 0,
    }
}

impl SyncJobResult {
    /// The counters as reported; one that is missing counts as zero.
    pub fn from_counters(
        deletes: Option<i64>,
        checks: Option<i64>,
        transfers: Option<i64>,
        errors: Option<i64>,
    ) -> (r: Self)
        ensures
            r == (SyncJobResult {
                deletes: count_or_zero(deletes),
                checks: count_or_zero(checks),
                transfers: count_or_zero(transfers),
                errors: count_or_zero(errors),
            }),
    {
        SyncJobResult {
            deletes: deletes.unwrap_or(0),
            checks: checks.unwrap_or(0),
            transfers: transfers.unwrap_or(0),
            errors: errors.unwrap_or(0),
        }
    }

    /// The counters of a statistics document: its integer members `deletes`,
    /// `checks`, `transfers` and `errors`, each zero where the document has
    /// no such integer.
    pub fn from_json(stats: &serde_json::Value) -> (r: Self)
        ensures
            r == (SyncJobResult {
                deletes: count_or_zero(integer_at(*stats, "deletes"@)),
                checks: count_or_zero(integer_at(*stats, "checks"@)),
                transfers: count_or_zero(integer_at(*stats, "transfers"@)),
                errors: count_or_zero(integer_at(*stats, "errors"@)),
            }),
    {
        Self::from_counters(
            integer_member(stats, "deletes"),
            integer_member(stats, "checks"),
            integer_member(stats, "transfers"),
            integer_member(stats, "errors"),
        )
    }
}

/// Why a job did not run to a good end.
#[derive(Debug, PartialEq, Eq)]
pub enum JobError {
    /// The backend did not take the job. Holds the whole message.
    SubmissionFailed(String),
    /// The state of the job could not be learned. Holds the whole message.
    StatusCheckFailed(String),
    /// The job ran and ended in an error. Holds the backend's own words.
    JobFailed(String),
    /// The job succeeded but its counters could not be had. Holds the whole
    /// message.
    StatsFailed(String),
}

impl JobError {
    /// The text shown to the user.
    pub open spec fn message_text(self) -> Seq<char> {
        match self {
            JobError::SubmissionFailed(m) => m@,
            JobError::StatusCheckFailed(m) => m@,
            JobError::JobFailed(e) => "Job failed: "@ + e@,
            JobError::StatsFailed(m) => m@,
        }
    }

    /// The text shown to the user.
    pub fn message(&self) -> (m: String)
        ensures
            m@ == self.message_text(),
    {
        match self {
            JobError::SubmissionFailed(m) => m.clone(),
            JobError::StatusCheckFailed(m) => m.clone(),
            JobError::JobFailed(e) => joined("Job failed: ", e.as_str()),
            JobError::StatsFailed(m) => m.clone(),
        }
    }
}

/// How a transfer ended when it did not fail.
#[derive(Debug, PartialEq, Eq)]
pub enum JobOutcome {
    /// The job finished; these are its counters.
    Completed(SyncJobResult),
    /// The job was stopped from outside: the backend was shut down or has
    /// dropped the job. Holds the explanation.
    Cancelled(String),
}

impl JobOutcome {
    /// The text shown to the user.
    pub fn message(&self) -> (m: String)
        ensures
            m@ == match *self {
                JobOutcome::Completed(_) => COMPLETED@,
                JobOutcome::Cancelled(why) => why@,
            },
    {
        match self {
            JobOutcome::Completed(_) => COMPLETED.to_owned(),
            JobOutcome::Cancelled(why) => why.clone(),
        }
    }
}

/// What came back from submitting a job.
pub enum SubmitReply {
    /// No response: the transport's message.
    SendFailed(String),
    /// A response whose status is not a success: its body.
    Refused(String),
    /// A success whose body could not be decoded: the decoder's message.
    Unreadable(String),
    /// A success: the job identifier in it, if it has one.
    Accepted(Option<i64>),
}

/// What came back from asking for a job's status.
pub enum StatusReply {
    /// No response: the transport's message.
    SendFailed(String),
    /// A response whose status is not a success: its body.
    Refused(String),
    /// A success whose body could not be decoded: the decoder's message.
    Unreadable(String),
    /// A success: whether the job is over, and its error, empty if it has none.
    Status { finished: bool, error: String },
}

/// What came back from asking for a job's statistics.
pub enum StatsReply {
    /// No response: the transport's message.
    SendFailed(String),
    /// A response whose body is no JSON document: the decoder's message.
    Unreadable(String),
    /// The statistics document.
    Stats(serde_json::Value),
}

/// A job that the backend has accepted and that may still be running.
pub struct PendingJob {
    jobid: i64,
}

/// A job that the backend has reported as finished without error.
pub struct FinishedJob {
    jobid: i64,
}

/// What to do after a status reply.
pub enum PollStep {
    /// The job still runs: wait `POLL_INTERVAL_SECS`, then ask again.
    Wait(PendingJob),
    /// The job is over and went well: fetch its counters.
    Finished(FinishedJob),
    /// The job was stopped from outside. Holds the explanation. Not an error.
    Cancelled(String),
    /// Polling ends in an error.
    Failed(JobError),
}

/// A transport message that tells that the backend process itself is gone.
pub open spec fn tells_backend_gone(message: Seq<char>) -> bool {
    occurs_in(message, "error sending request"@) || occurs_in(message, "connection refused"@)
}

/// A response body that tells that the backend no longer knows the job.
pub open spec fn tells_job_missing(body: Seq<char>) -> bool {
    occurs_in(body, "job not found"@)
}

/// Whether a transport failure means that the backend process is gone, as
/// when the application quits during a transfer.
pub fn is_backend_gone(message: &str) -> (r: bool)
    ensures
        r == tells_backend_gone(message@),
{
    contains(message, "error sending request") || contains(message, "connection refused")
}

/// Whether a refusal means that the backend no longer knows the job.
pub fn is_job_missing(body: &str) -> (r: bool)
    ensures
        r == tells_job_missing(body@),
{
    contains(body, "job not found")
}

/// Decides on the reply to a submission. Only a success that carries a job
/// identifier starts a job; everything else is a submission failure with
/// one message.
pub fn start_sync_job(reply: SubmitReply) -> (r: Result<PendingJob, JobError>)
    ensures
        match reply {
            SubmitReply::SendFailed(m) => r matches Err(JobError::SubmissionFailed(t)) && t@
                == "Sync start failed: "@ + m@,
            SubmitReply::Refused(body) => r matches Err(JobError::SubmissionFailed(t)) && t@
                == "Sync start failed: "@ + body@,
            SubmitReply::Unreadable(m) => r matches Err(JobError::SubmissionFailed(t)) && t@
                == "Failed to parse sync response: "@ + m@,
            SubmitReply::Accepted(None) => r matches Err(JobError::SubmissionFailed(t)) && t@
                == "No jobid returned"@,
            SubmitReply::Accepted(Some(id)) => r matches Ok(job) && job.jobid() == id,
        },
{
    match reply {
        SubmitReply::SendFailed(m) => Err(
            JobError::SubmissionFailed(joined("Sync start failed: ", m.as_str())),
        ),
        SubmitReply::Refused(body) => Err(
            JobError::SubmissionFailed(joined("Sync start failed: ", body.as_str())),
        ),
        SubmitReply::Unreadable(m) => Err(
            JobError::SubmissionFailed(joined("Failed to parse sync response: ", m.as_str())),
        ),
        SubmitReply::Accepted(None) => Err(
            JobError::SubmissionFailed("No jobid returned".to_owned()),
        ),
        SubmitReply::Accepted(Some(jobid)) => Ok(PendingJob { jobid }),
    }
}

impl PendingJob {
    /// The identifier that the backend gave the job.
    pub closed spec fn jobid(self) -> i64 {
        self.jobid
    }

    /// The identifier to ask the status of.
    pub fn id(&self) -> (id: i64)
        ensures
            id == self.jobid(),
    {
        self.jobid
    }

    /// The JSON object to post to `/job/status`.
    pub fn status_request(&self) -> (json: String)
        ensures
            json@ == status_request_of(self.jobid()),
    {
        let mut chars: Vec<char> = Vec::new();
        extend_str(&mut chars, "{\"jobid\":");
        push_decimal(&mut chars, self.jobid);
        extend_str(&mut chars, "}");
        assert(chars@ =~= status_request_of(self.jobid));
        from_chars(&chars)
    }

    /// Decides on the reply to a status request.
    ///
    /// A status that is not finished means waiting. A finished status ends
    /// the polling: well if its error is empty, with the backend's error
    /// otherwise. A transport failure that tells that the backend is gone,
    /// and a refusal that tells that the job is unknown, count as the job
    /// having been stopped from outside, not as errors. Every other failure
    /// is a failed status check.
    pub fn poll_job_completion(self, reply: StatusReply) -> (step: PollStep)
        ensures
            match reply {
                StatusReply::SendFailed(m) => if tells_backend_gone(m@) {
                    step matches PollStep::Cancelled(why) && why@ == SERVER_STOPPED@
                } else {
                    step matches PollStep::Failed(JobError::StatusCheckFailed(t)) && t@
                        == "Failed to check job status: "@ + m@
                },
                StatusReply::Refused(body) => if tells_job_missing(body@) {
                    step matches PollStep::Cancelled(why) && why@ == JOB_VANISHED@
                } else {
                    step matches PollStep::Failed(JobError::StatusCheckFailed(t)) && t@
                        == "Job status check failed: "@ + body@
                },
                StatusReply::Unreadable(m) => step matches PollStep::Failed(
                    JobError::StatusCheckFailed(t),
                ) && t@ == "Failed to parse job status: "@ + m@,
                StatusReply::Status { finished, error } => if !finished {
                    step matches PollStep::Wait(job) && job.jobid() == self.jobid()
                } else if error@.len() == 0 {
                    step matches PollStep::Finished(job) && job.jobid() == self.jobid()
                } else {
                    step matches PollStep::Failed(JobError::JobFailed(e)) && e@ == error@
                },
            },
    {
        match reply {
            StatusReply::SendFailed(m) => {
                if is_backend_gone(m.as_str()) {
                    PollStep::Cancelled(SERVER_STOPPED.to_owned())
                } else {
                    PollStep::Failed(
                        JobError::StatusCheckFailed(
                            joined("Failed to check job status: ", m.as_str()),
                        ),
                    )
                }
            },
            StatusReply::Refused(body) => {
                if is_job_missing(body.as_str()) {
                    PollStep::Cancelled(JOB_VANISHED.to_owned())
                } else {
                    PollStep::Failed(
                        JobError::StatusCheckFailed(
                            joined("Job status check failed: ", body.as_str()),
                        ),
                    )
                }
            },
            StatusReply::Unreadable(m) => PollStep::Failed(
                JobError::StatusCheckFailed(joined("Failed to parse job status: ", m.as_str())),
            ),
            StatusReply::Status { finished, error } => {
                if !finished {
                    PollStep::Wait(self)
                } else if error.as_str().unicode_len() == 0 {
                    PollStep::Finished(FinishedJob { jobid: self.jobid })
                } else {
                    PollStep::Failed(JobError::JobFailed(error))
                }
            },
        }
    }
}

/// What is posted to ask for the status of the job `jobid`.
pub open spec fn status_request_of(jobid: i64) -> Seq<char> {
    "{\"jobid\":"@ + decimal(jobid as int) + "}"@
}

/// What is posted to ask for the counters of the job `jobid`: the name of
/// its statistics group.
pub open spec fn stats_request_of(jobid: i64) -> Seq<char> {
    "{\"group\":"@ + json_string(stats_group_of(jobid)) + "}"@
}

/// The statistics group of the job `jobid`.
pub open spec fn stats_group_of(jobid: i64) -> Seq<char> {
    "job/"@ + decimal(jobid as int)
}

impl FinishedJob {
    /// The identifier that the backend gave the job.
    pub closed spec fn jobid(self) -> i64 {
        self.jobid
    }

    /// The identifier of the job.
    pub fn id(&self) -> (id: i64)
        ensures
            id == self.jobid(),
    {
        self.jobid
    }

    /// The statistics group to ask the counters of.
    pub fn stats_group(&self) -> (group: String)
        ensures
            group@ == stats_group_of(self.jobid()),
    {
        let mut chars: Vec<char> = Vec::new();
        extend_str(&mut chars, "job/");
        push_decimal(&mut chars, self.jobid);
        from_chars(&chars)
    }

    /// The JSON object to post to `/core/stats`.
    pub fn stats_request(&self) -> (json: String)
        ensures
            json@ == stats_request_of(self.jobid()),
    {
        let group = self.stats_group();
        let mut chars: Vec<char> = Vec::new();
        extend_str(&mut chars, "{\"group\":");
        extend_str(&mut chars, quote(group.as_str()).as_str());
        extend_str(&mut chars, "}");
        assert(chars@ =~= stats_request_of(self.jobid));
        from_chars(&chars)
    }

    /// Decides on the reply to the statistics request. A document gives the
    /// counters, zero for each one it lacks; no document is an error.
    pub fn get_job_stats(self, reply: StatsReply) -> (r: Result<SyncJobResult, JobError>)
        ensures
            match reply {
                StatsReply::SendFailed(m) => r matches Err(JobError::StatsFailed(t)) && t@
                    == "Failed to get stats: "@ + m@,
                StatsReply::Unreadable(m) => r matches Err(JobError::StatsFailed(t)) && t@
                    == "Failed to parse stats: "@ + m@,
                StatsReply::Stats(stats) => r == Ok::<SyncJobResult, JobError>(
                    SyncJobResult {
                        deletes: count_or_zero(integer_at(stats, "deletes"@)),
                        checks: count_or_zero(integer_at(stats, "checks"@)),
                        transfers: count_or_zero(integer_at(stats, "transfers"@)),
                        errors: count_or_zero(integer_at(stats, "errors"@)),
                    },
                ),
            },
    {
        match reply {
            StatsReply::SendFailed(m) => Err(
                JobError::StatsFailed(joined("Failed to get stats: ", m.as_str())),
            ),
            StatsReply::Unreadable(m) => Err(
                JobError::StatsFailed(joined("Failed to parse stats: ", m.as_str())),
            ),
            StatsReply::Stats(stats) => Ok(SyncJobResult::from_json(&stats)),
        }
    }
}

} // verus!
