//! Previewing what a sync would delete.
//!
//! The backend's counters do not say which files a sync would delete, so the
//! preview reads them from the log. The order is fixed: take the position at
//! the end of the log, then run the job, then read what the log gained.

use vstd::prelude::*;
use crate::api::gdrive::download::{
    dry_run_request_body, ConfigError, DownloadConfig, FilesystemPaths, RequestBody, TransferMode,
    TransferRequest,
};
use crate::api::gdrive::job::{JobOutcome, SyncJobResult};
use crate::api::rclone::log::{deleted_paths, log_lines, parse_deleted_files};
use crate::text::{decimal, extend_str, from_chars, opt_text, push_decimal, texts};

verus! {

/// What a dry run found.
#[derive(Debug, PartialEq, Eq)]
pub struct DryRunResult {
    /// Whether a real sync would delete anything.
    pub would_delete: bool,
    /// The files that it would delete, in the order the backend named them.
    pub deleted_files: Vec<String>,
    /// The counters of the dry run in one line.
    pub stats: String,
}

/// The counters in one line.
pub open spec fn stats_summary(result: SyncJobResult) -> Seq<char> {
    "Checks: "@ + decimal(result.checks as int) + ", Transfers: "@ + decimal(
        result.transfers as int,
    ) + ", Deletes: "@ + decimal(result.deletes as int) + ", Errors: "@ + decimal(
        result.errors as int,
    )
}

/// The counters in one line.
pub fn summarize(result: &SyncJobResult) -> (line: String)
    ensures
        line@ == stats_summary(*result),
{
    let mut chars: Vec<char> = Vec::new();
    extend_str(&mut chars, "Checks: ");
    push_decimal(&mut chars, result.checks);
    extend_str(&mut chars, ", Transfers: ");
    push_decimal(&mut chars, result.transfers);
    extend_str(&mut chars, ", Deletes: ");
    push_decimal(&mut chars, result.deletes);
    extend_str(&mut chars, ", Errors: ");
    push_decimal(&mut chars, result.errors);
    assert(chars@ =~= stats_summary(*result));
    from_chars(&chars)
}

/// The request that a preview works on: always a sync, since only a sync
/// deletes, and never with a backup.
pub fn dry_run_config(
    source: String,
    destination: String,
    remote_config: Option<String>,
    create_subfolder: bool,
    selected_files: Option<Vec<String>>,
    delete_excluded: bool,
) -> (r: Result<DownloadConfig, ConfigError>)
    ensures
        match r {
            Ok(config) => opt_text(remote_config) is Some && config@ == (TransferRequest {
                source: source@,
                destination: destination@,
                remote_config: opt_text(remote_config).unwrap(),
                sync_mode: true,
                create_subfolder,
                selected_files: match selected_files {
                    Some(files) => Some(texts(files@)),
                    None => None,
                },
                create_backup: false,
                delete_excluded,
            }) && config@.remote_config.len() > 0,
            Err(e) => e == ConfigError::MissingIdentity && (remote_config is None || opt_text(
                remote_config,
            ).unwrap().len() == 0),
        },
{
    DownloadConfig::new(
        source,
        destination,
        remote_config,
        true,
        create_subfolder,
        selected_files,
        false,
        delete_excluded,
    )
}

/// The request body of a preview: that of a sync, whatever mode `config`
/// names, marked as a dry run so that the backend changes nothing.
pub fn dry_run_body(config: &DownloadConfig, paths: &FilesystemPaths) -> (body: RequestBody)
    ensures
        body@ == dry_run_request_body(config@, paths@),
        body@.dry_run,
{
    config.build_dry_run_body(paths)
}

/// The backend call of a preview: always the one for a sync, since only a
/// sync deletes.
pub fn dry_run_endpoint() -> (path: &'static str)
    ensures
        path@ == "/sync/sync"@,
{
    TransferMode::Sync { delete_excluded: false }.endpoint()
}

/// The result of a preview from the counters of its job and the deletions
/// found in the log. Either sign of a deletion is enough: a counter above
/// zero, or a deletion in the log.
pub fn check_dry_run(result: &SyncJobResult, deleted_files: Vec<String>) -> (r: DryRunResult)
    ensures
        r.would_delete == (result.deletes > 0 || deleted_files@.len() > 0),
        r.deleted_files == deleted_files,
        r.stats@ == stats_summary(*result),
{
    let would_delete = result.deletes > 0 || deleted_files.len() > 0;
    let stats = summarize(result);
    DryRunResult { would_delete, deleted_files, stats }
}

/// A preview under way. It holds the position that the log had before the
/// job was submitted, and gives it up when the preview is finished.
pub struct DryRunSession {
    start_offset: usize,
}

impl DryRunSession {
    /// The position in the log from which the preview reads.
    pub closed spec fn start_offset(self) -> nat {
        self.start_offset as nat
    }

    /// Starts a preview: `log` is the log as it stands before the job is
    /// submitted. Nothing in it will count.
    pub fn begin(log: &[u8]) -> (session: Self)
        ensures
            session.start_offset() == log@.len(),
    {
        DryRunSession { start_offset: log.len() }
    }

    /// Ends the preview: `result` holds the counters of the job and `log` is
    /// the log as it stands after the job. Only what the log gained since
    /// `begin` is read.
    pub fn finish(self, result: &SyncJobResult, log: &[u8]) -> (r: DryRunResult)
        ensures
            texts(r.deleted_files@) == deleted_paths(log_lines(log@, self.start_offset())),
            r.would_delete == (result.deletes > 0 || r.deleted_files@.len() > 0),
            r.stats@ == stats_summary(*result),
    {
        let deleted_files = parse_deleted_files(log, self.start_offset);
        check_dry_run(result, deleted_files)
    }

    /// Ends the preview on the way its job ended. A job that was stopped
    /// from outside gives no preview, only the explanation of the stop.
    pub fn conclude(self, outcome: JobOutcome, log: &[u8]) -> (r: Result<DryRunResult, String>)
        ensures
            match outcome {
                JobOutcome::Completed(result) => r matches Ok(found) && {
                    &&& texts(found.deleted_files@) == deleted_paths(
                        log_lines(log@, self.start_offset()),
                    )
                    &&& found.would_delete == (result.deletes > 0 || found.deleted_files@.len()
                        > 0)
                    &&& found.stats@ == stats_summary(result)
                },
                JobOutcome::Cancelled(why) => r matches Err(m) && m@ == why@,
            },
    {
        match outcome {
            JobOutcome::Completed(result) => Ok(self.finish(&result, log)),
            JobOutcome::Cancelled(why) => Err(why),
        }
    }
}

} // verus!
