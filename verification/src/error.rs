//! The error that request handling answers with: an HTTP status code and a
//! message for the client.
use vstd::prelude::*;

verus! {

/// `400 Bad Request`.
pub const BAD_REQUEST: u16 = 400;
/// `401 Unauthorized`.
pub const UNAUTHORIZED: u16 = 401;
/// `404 Not Found`.
pub const NOT_FOUND: u16 = 404;
/// `500 Internal Server Error`.
pub const INTERNAL_SERVER_ERROR: u16 = 500;

/// A refused request: the status to answer with and the message body.
#[derive(Debug)]
pub struct ApiError {
    pub status: u16,
    pub message: String,
}

impl ApiError {
    /// An error with the given status and message.
    pub fn new(status: u16, message: &str) -> (e: ApiError)
        ensures
            e.status == status,
            e.message@ == message@,
    {
        ApiError { status, message: String::from_str(message) }
    }

    /// A `400` with the given message.
    pub fn bad_request(message: &str) -> (e: ApiError)
        ensures
            e.status == BAD_REQUEST,
            e.message@ == message@,
    {
        ApiError::new(BAD_REQUEST, message)
    }

    /// A `401` with the given message.
    pub fn unauthorized(message: &str) -> (e: ApiError)
        ensures
            e.status == UNAUTHORIZED,
            e.message@ == message@,
    {
        ApiError::new(UNAUTHORIZED, message)
    }

    /// A `404` with the given message.
    pub fn not_found(message: &str) -> (e: ApiError)
        ensures
            e.status == NOT_FOUND,
            e.message@ == message@,
    {
        ApiError::new(NOT_FOUND, message)
    }

    /// A `500` carrying the text of a storage failure.
    pub fn internal(message: String) -> (e: ApiError)
        ensures
            e.status == INTERNAL_SERVER_ERROR,
            e.message@ == message@,
    {
        ApiError { status: INTERNAL_SERVER_ERROR, message }
    }
}

} // verus!
