//! Errors that the server answers with: an HTTP status and a message.

use vstd::prelude::*;

verus! {

/// A refused request: the HTTP status and the error message of the JSON
/// body.
#[derive(Debug)]
pub struct ApiError {
    pub status: u16,
    pub message: String,
}

/// 400 Bad Request.
pub const BAD_REQUEST: u16 = 400;
/// 404 Not Found.
pub const NOT_FOUND: u16 = 404;
/// 409 Conflict.
pub const CONFLICT: u16 = 409;
/// 422 Unprocessable Entity.
pub const UNPROCESSABLE_ENTITY: u16 = 422;
/// 500 Internal Server Error.
pub const INTERNAL_SERVER_ERROR: u16 = 500;
/// 503 Service Unavailable.
pub const SERVICE_UNAVAILABLE: u16 = 503;

impl ApiError {
    /// An error with the given status and message.
    pub fn new(status: u16, message: String) -> (e: ApiError)
        ensures
            e.status == status,
            e.message@ == message@,
    {
        ApiError { status, message }
    }
}

} // verus!
