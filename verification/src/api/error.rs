//! The one error shape every request that can fail is answered with: an
//! HTTP status, a short machine-readable code and a human-readable message.

use vstd::prelude::*;

verus! {

/// HTTP 400.
pub const BAD_REQUEST: u16 = 400;

/// HTTP 404.
pub const NOT_FOUND: u16 = 404;

/// HTTP 500.
pub const INTERNAL_SERVER_ERROR: u16 = 500;

#[derive(Debug, Clone)]
pub struct ApiError {
    pub status: u16,
    pub error: String,
    pub message: String,
}

impl ApiError {
    /// The request itself is wrong (400).
    pub fn bad_request(error: &str, message: String) -> (r: Self)
        ensures
            r.status == BAD_REQUEST,
            r.error@ == error@,
            r.message == message,
    {
        ApiError { status: BAD_REQUEST, error: error.to_string(), message }
    }

    /// What the request names does not exist (404).
    pub fn not_found(error: &str, message: String) -> (r: Self)
        ensures
            r.status == NOT_FOUND,
            r.error@ == error@,
            r.message == message,
    {
        ApiError { status: NOT_FOUND, error: error.to_string(), message }
    }

    /// Something failed on the server's side (500, `internal_error`).
    pub fn internal(message: String) -> (r: Self)
        ensures
            r.status == INTERNAL_SERVER_ERROR,
            r.error@ == "internal_error"@,
            r.message == message,
    {
        ApiError {
            status: INTERNAL_SERVER_ERROR,
            error: String::from_str("internal_error"),
            message,
        }
    }

    /// What a store failure is answered with: never the caller's fault and
    /// never described to them, whatever the store reported.
    pub fn from_store_error() -> (r: Self)
        ensures
            r.status == INTERNAL_SERVER_ERROR,
            r.error@ == "internal_error"@,
            r.message@ == "an internal error occurred"@,
    {
        ApiError::internal(String::from_str("an internal error occurred"))
    }
}

} // verus!
