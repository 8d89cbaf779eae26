//! Status values that the library's operations report, with a code and a
//! message, and the response header that services send back.

use vstd::prelude::*;

verus! {

/// What kind of failure a [`Status`] reports.
#[derive(Clone, Copy, Debug, PartialEq, Eq, Structural)]
pub enum Code {
    InvalidArgument,
    FailedPrecondition,
    NotFound,
    AlreadyExists,
    Unauthenticated,
    PermissionDenied,
    ResourceExhausted,
    Unimplemented,
    Unavailable,
    Internal,
}

/// A failure with its code and a human readable message.
#[derive(Debug)]
pub struct Status {
    pub code: Code,
    pub message: String,
}

impl Status {
    pub fn new(code: Code, message: &str) -> (s: Status)
        ensures
            s.code == code,
            s.message@ == message@,
    {
        Status { code, message: message.to_string() }
    }

    pub fn invalid_argument(message: &str) -> (s: Status)
        ensures
            s.code == Code::InvalidArgument,
            s.message@ == message@,
    {
        Status::new(Code::InvalidArgument, message)
    }

    pub fn failed_precondition(message: &str) -> (s: Status)
        ensures
            s.code == Code::FailedPrecondition,
            s.message@ == message@,
    {
        Status::new(Code::FailedPrecondition, message)
    }

    pub fn code(&self) -> (c: Code)
        ensures
            c == self.code,
    {
        self.code
    }
}

/// The response header of a service call: `code` 0 means success.
#[derive(Clone, Debug)]
pub struct ApiResponse {
    pub code: i32,
    pub message: String,
}

/// A success header carrying `message`.
pub fn ok_response(message: &str) -> (r: ApiResponse)
    ensures
        r.code == 0,
        r.message@ == message@,
{
    ApiResponse { code: 0, message: message.to_string() }
}

/// A failure header with the given code and message.
pub fn error_response(code: i32, message: &str) -> (r: ApiResponse)
    ensures
        r.code == code,
        r.message@ == message@,
{
    ApiResponse { code, message: message.to_string() }
}

} // verus!
