use vstd::prelude::*;

use crate::api_error::{api_error, ApiError, BAD_REQUEST, CONFLICT, NOT_FOUND};
use crate::text::{
    append_chars, append_str, chars_of, decimal, decimal_chars, has_prefix, starts_with_chars,
    str_eq, string_from_chars,
};

verus! {

#[derive(Debug)]
pub enum JobsStoreError {
    Sql(String),
    LockPoisoned,
}

impl JobsStoreError {
    pub fn message(&self) -> (r: String)
        ensures
            r@ == match *self {
                JobsStoreError::Sql(d) => "sqlite error: "@ + d@,
                JobsStoreError::LockPoisoned => "store lock poisoned"@,
            },
    {
        let mut v: Vec<char> = Vec::new();
        match self {
            JobsStoreError::Sql(d) => {
                append_str(&mut v, "sqlite error: ");
                append_str(&mut v, d.as_str());
            },
            JobsStoreError::LockPoisoned => {
                append_str(&mut v, "store lock poisoned");
                assert(v@ =~= "store lock poisoned"@);
            },
        }
        string_from_chars(&v)
    }
}

#[derive(Debug, Clone, Copy, PartialEq, Eq, Structural)]
pub enum JobStatus {
    Running,
    Succeeded,
    Failed,
    Canceled,
}

pub open spec fn status_code(s: JobStatus) -> Seq<char> {
    match s {
        JobStatus::Running => "running"@,
        JobStatus::Succeeded => "succeeded"@,
        JobStatus::Failed => "failed"@,
        JobStatus::Canceled => "canceled"@,
    }
}

/// The status a stored code stands for; unknown codes read as `Running`.
pub open spec fn status_from_code(code: Seq<char>) -> JobStatus {
    if code == "succeeded"@ {
        JobStatus::Succeeded
    } else if code == "failed"@ {
        JobStatus::Failed
    } else if code == "canceled"@ {
        JobStatus::Canceled
    } else {
        JobStatus::Running
    }
}

impl JobStatus {
    pub fn as_str(&self) -> (r: &'static str)
        ensures
            r@ == status_code(*self),
    {
        match self {
            JobStatus::Running => "running",
            JobStatus::Succeeded => "succeeded",
            JobStatus::Failed => "failed",
            JobStatus::Canceled => "canceled",
        }
    }

    pub fn from_str(v: &str) -> (r: Self)
        ensures
            r == status_from_code(v@),
    {
        if str_eq(v, "succeeded") {
            JobStatus::Succeeded
        } else if str_eq(v, "failed") {
            JobStatus::Failed
        } else if str_eq(v, "canceled") {
            JobStatus::Canceled
        } else {
            JobStatus::Running
        }
    }
}

/// Every job status reads back as itself from its stored code.
pub proof fn lemma_status_code_roundtrip(s: JobStatus)
    ensures
        status_from_code(status_code(s)) == s,
{
    reveal_strlit("running");
    reveal_strlit("succeeded");
    reveal_strlit("failed");
    reveal_strlit("canceled");
    assert("running"@.len() == 7 && "succeeded"@.len() == 9 && "failed"@.len() == 6
        && "canceled"@.len() == 8);
}

#[derive(Debug)]
pub struct JobRecord {
    pub id: i64,
    pub kind: String,
    pub status: JobStatus,
    pub created_at_ms: u128,
    pub updated_at_ms: u128,
    pub payload_json: String,
    pub result_json: Option<String>,
    pub error: Option<String>,
}

/// Queue controls act on bulk jobs only.
pub open spec fn is_bulk_kind(kind: Seq<char>) -> bool {
    has_prefix(kind, "bulk_"@)
}

fn kind_is_bulk(kind: &String) -> (r: bool)
    ensures
        r == is_bulk_kind(kind@),
{
    let k = chars_of(kind.as_str());
    let p = chars_of("bulk_");
    starts_with_chars(&k, &p)
}

pub open spec fn decimal_i64(n: i64) -> Seq<char> {
    if n < 0 {
        seq!['-'] + decimal((-n) as nat)
    } else {
        decimal(n as nat)
    }
}

pub fn i64_text(n: i64) -> (r: Vec<char>)
    ensures
        r@ == decimal_i64(n),
{
    if n < 0 {
        let mut r: Vec<char> = Vec::new();
        r.push('-');
        let m: u64 = if n == i64::MIN {
            9223372036854775808u64
        } else {
            (-n) as u64
        };
        let d = decimal_chars(m);
        append_chars(&mut r, &d);
        r
    } else {
        decimal_chars(n as u64)
    }
}

fn job_not_found(job_id: i64) -> (r: ApiError)
    ensures
        r.status == NOT_FOUND,
        r.message@ == "job "@ + decimal_i64(job_id) + " was not found"@,
{
    let mut m: Vec<char> = Vec::new();
    append_str(&mut m, "job ");
    let d = i64_text(job_id);
    append_chars(&mut m, &d);
    append_str(&mut m, " was not found");
    ApiError { status: NOT_FOUND, message: string_from_chars(&m) }
}

/// Whether an operator may cancel job `job_id`, given the stored job
/// (`None` when there is none): only a running bulk job can be cancelled.
pub fn check_cancel_job(job_id: i64, job: &Option<JobRecord>) -> (r: Result<(), ApiError>)
    ensures
        match *job {
            None => r matches Err(e) && e.status == NOT_FOUND && e.message@ == "job "@
                + decimal_i64(job_id) + " was not found"@,
            Some(j) => if !is_bulk_kind(j.kind@) {
                r matches Err(e) && e.status == BAD_REQUEST && e.message@
                    == "only bulk jobs can be cancelled from queue"@
            } else if j.status != JobStatus::Running {
                r matches Err(e) && e.status == CONFLICT && e.message@
                    == "job is not running and cannot be cancelled"@
            } else {
                r is Ok
            },
        },
{
    match job {
        None => Err(job_not_found(job_id)),
        Some(j) => {
            if !kind_is_bulk(&j.kind) {
                return Err(api_error(BAD_REQUEST, "only bulk jobs can be cancelled from queue"));
            }
            if j.status != JobStatus::Running {
                return Err(api_error(CONFLICT, "job is not running and cannot be cancelled"));
            }
            Ok(())
        },
    }
}

/// How a retried job is run again.
#[derive(Debug, Clone, Copy, PartialEq, Eq, Structural)]
pub enum RetryKind {
    BulkDryRun,
    BulkApply,
    Unsupported,
}

/// Whether job `job_id` may be retried, and how: only a bulk job that is not
/// running; dry runs and applies are run again, other bulk kinds are not
/// supported.
pub fn check_retry_job(job_id: i64, job: &Option<JobRecord>) -> (r: Result<RetryKind, ApiError>)
    ensures
        match *job {
            None => r matches Err(e) && e.status == NOT_FOUND && e.message@ == "job "@
                + decimal_i64(job_id) + " was not found"@,
            Some(j) => if !is_bulk_kind(j.kind@) {
                r matches Err(e) && e.status == BAD_REQUEST && e.message@
                    == "only bulk jobs can be retried from queue"@
            } else if j.status == JobStatus::Running {
                r matches Err(e) && e.status == CONFLICT && e.message@
                    == "running jobs cannot be retried"@
            } else if j.kind@ == "bulk_dry_run"@ {
                r == Ok::<RetryKind, ApiError>(RetryKind::BulkDryRun)
            } else if j.kind@ == "bulk_apply"@ {
                r == Ok::<RetryKind, ApiError>(RetryKind::BulkApply)
            } else {
                r == Ok::<RetryKind, ApiError>(RetryKind::Unsupported)
            },
        },
{
    match job {
        None => Err(job_not_found(job_id)),
        Some(j) => {
            if !kind_is_bulk(&j.kind) {
                return Err(api_error(BAD_REQUEST, "only bulk jobs can be retried from queue"));
            }
            if j.status == JobStatus::Running {
                return Err(api_error(CONFLICT, "running jobs cannot be retried"));
            }
            if str_eq(j.kind.as_str(), "bulk_dry_run") {
                Ok(RetryKind::BulkDryRun)
            } else if str_eq(j.kind.as_str(), "bulk_apply") {
                Ok(RetryKind::BulkApply)
            } else {
                Ok(RetryKind::Unsupported)
            }
        },
    }
}

/// The refusal for a retried job of an unsupported kind.
pub fn retry_unsupported_error() -> (r: ApiError)
    ensures
        r.status == BAD_REQUEST,
        r.message@ == "retry is only supported for bulk_dry_run and bulk_apply"@,
{
    api_error(BAD_REQUEST, "retry is only supported for bulk_dry_run and bulk_apply")
}

/// The status a finished bulk apply gets: failed as soon as one item failed.
pub fn bulk_job_status(failed: usize) -> (r: JobStatus)
    ensures
        r == if failed == 0 {
            JobStatus::Succeeded
        } else {
            JobStatus::Failed
        },
{
    if failed == 0 {
        JobStatus::Succeeded
    } else {
        JobStatus::Failed
    }
}

} // verus!
