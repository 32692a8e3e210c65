use vstd::prelude::*;

use crate::text::owned;

verus! {

pub const BAD_REQUEST: u16 = 400;
pub const FORBIDDEN: u16 = 403;
pub const NOT_FOUND: u16 = 404;
pub const CONFLICT: u16 = 409;
pub const FAILED_DEPENDENCY: u16 = 424;
pub const INTERNAL_SERVER_ERROR: u16 = 500;

/// A refused request: the HTTP status and the message sent with it.
#[derive(Debug)]
pub struct ApiError {
    pub status: u16,
    pub message: String,
}

/// `r` is a refusal with this status and message.
pub open spec fn refused<T>(r: Result<T, ApiError>, status: u16, message: Seq<char>) -> bool {
    match r {
        Ok(_) => false,
        Err(e) => e.status == status && e.message@ == message,
    }
}

pub fn api_error(status: u16, message: &str) -> (r: ApiError)
    ensures
        r.status == status,
        r.message@ == message@,
{
    ApiError { status, message: owned(message) }
}

} // verus!
