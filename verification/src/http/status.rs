//! Response status codes.

use vstd::prelude::*;

verus! {

/// The status codes this server answers with.
#[derive(Debug, Clone, Copy, PartialEq, Eq, Structural)]
pub enum HttpStatus {
    Okay,
    BadRequest,
    Forbidden,
    NotFound,
    MethodNotAllowed,
    LengthRequired,
    PayloadTooLarge,
    UriTooLong,
    InternalServerError,
    HttpVersionNotSupported,
}

impl HttpStatus {
    /// The three-digit code sent on the status line.
    pub open spec fn code_spec(self) -> u16 {
        match self {
            HttpStatus::Okay => 200,
            HttpStatus::BadRequest => 400,
            HttpStatus::Forbidden => 403,
            HttpStatus::NotFound => 404,
            HttpStatus::MethodNotAllowed => 405,
            HttpStatus::LengthRequired => 411,
            HttpStatus::PayloadTooLarge => 413,
            HttpStatus::UriTooLong => 414,
            HttpStatus::InternalServerError => 500,
            HttpStatus::HttpVersionNotSupported => 505,
        }
    }

    /// The three-digit code sent on the status line.
    pub fn code(&self) -> (c: u16)
        ensures
            c == self.code_spec(),
    {
        match self {
            HttpStatus::Okay => 200,
            HttpStatus::BadRequest => 400,
            HttpStatus::Forbidden => 403,
            HttpStatus::NotFound => 404,
            HttpStatus::MethodNotAllowed => 405,
            HttpStatus::LengthRequired => 411,
            HttpStatus::PayloadTooLarge => 413,
            HttpStatus::UriTooLong => 414,
            HttpStatus::InternalServerError => 500,
            HttpStatus::HttpVersionNotSupported => 505,
        }
    }
}

} // verus!
