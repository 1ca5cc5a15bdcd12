//! Status codes and the error that every request handler answers with.

use vstd::prelude::*;

verus! {

pub const OK: u16 = 200;

pub const NO_CONTENT: u16 = 204;

pub const BAD_REQUEST: u16 = 400;

pub const UNAUTHORIZED: u16 = 401;

pub const FORBIDDEN: u16 = 403;

pub const NOT_FOUND: u16 = 404;

pub const CONFLICT: u16 = 409;

pub const INTERNAL_SERVER_ERROR: u16 = 500;

pub const SERVICE_UNAVAILABLE: u16 = 503;

/// A refusal: the status code and the text that goes to the client.
#[derive(Debug)]
pub struct ApiError {
    pub status: u16,
    pub message: String,
}

impl ApiError {
    /// Whether the error has the status `status` and the text `message`.
    pub open spec fn is(&self, status: u16, message: Seq<char>) -> bool {
        self.status == status && self.message@ == message
    }

    /// An error with the given status and text.
    pub fn new(status: u16, message: &str) -> (error: ApiError)
        ensures
            error.is(status, message@),
    {
        ApiError { status, message: message.to_owned() }
    }
}

} // verus!
