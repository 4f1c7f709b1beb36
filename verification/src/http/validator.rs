//! The semantic checks on a request whose headers are complete.
//!
//! The reader checks syntax; what a request means is checked here, once,
//! before any body byte is read: whether the version is supported, whether
//! the method and the declared body agree, and whether the declared body is
//! within the configured size. The first check that fails is the one
//! reported.

use crate::config::ServerConfig;
use crate::decimal::read_decimal;
use crate::http::parser::{
    declared_length, feed_spec, lemma_headers_step, request_line_step, ParserError, ParserOk,
    ParserState, ParserView,
};
use crate::http::request::{content_length_name, HttpRequest, RequestView};
use crate::http::status::HttpStatus;
use crate::http::{HttpMethod, HttpVersion};
use vstd::prelude::*;

verus! {

/// Why a request is refused.
#[derive(Debug, Clone, Copy, PartialEq, Eq, Structural)]
pub enum ValidatorError {
    /// The version pair names no version.
    Error,
    /// The version is newer than the server supports.
    HttpVersionNotSupported,
    /// The declared body is larger than the server accepts.
    PayloadTooLarge,
    /// The `Content-Length` value is not a length.
    MalformedHeaderField,
    /// The method needs a body and no length is declared.
    MissingContentLength,
    /// The method takes no body and one is declared.
    BodyNotAllowed,
    /// The method needs a body and the declared length is zero.
    MandatoryBody,
}

impl ValidatorError {
    /// The status that reports this failure to the client.
    pub open spec fn status(self) -> HttpStatus {
        match self {
            ValidatorError::Error => HttpStatus::BadRequest,
            ValidatorError::HttpVersionNotSupported => HttpStatus::HttpVersionNotSupported,
            ValidatorError::PayloadTooLarge => HttpStatus::PayloadTooLarge,
            ValidatorError::MalformedHeaderField => HttpStatus::BadRequest,
            ValidatorError::MandatoryBody => HttpStatus::BadRequest,
            ValidatorError::BodyNotAllowed => HttpStatus::BadRequest,
            ValidatorError::MissingContentLength => HttpStatus::LengthRequired,
        }
    }

    /// The status that reports this failure to the client.
    pub fn into_http_status(self) -> (s: HttpStatus)
        ensures
            s == self.status(),
    {
        match self {
            ValidatorError::Error => HttpStatus::BadRequest,
            ValidatorError::HttpVersionNotSupported => HttpStatus::HttpVersionNotSupported,
            ValidatorError::PayloadTooLarge => HttpStatus::PayloadTooLarge,
            ValidatorError::MalformedHeaderField => HttpStatus::BadRequest,
            ValidatorError::MandatoryBody => HttpStatus::BadRequest,
            ValidatorError::BodyNotAllowed => HttpStatus::BadRequest,
            ValidatorError::MissingContentLength => HttpStatus::LengthRequired,
        }
    }
}

/// The version check: the pair must name a version, and the version must
/// not be newer than `max`.
pub open spec fn version_check(v: (u8, u8), max: HttpVersion) -> Result<(), ValidatorError> {
    match HttpVersion::of_pair(v) {
        None => Err(ValidatorError::Error),
        Some(version) => if version.rank() <= max.rank() {
            Ok(())
        } else {
            Err(ValidatorError::HttpVersionNotSupported)
        },
    }
}

/// The method check: `GET` and `HEAD` must not declare a body of a length
/// other than zero; `POST` and `PUT` must declare a body, and not of length
/// zero; any other method is free.
pub open spec fn method_check(content_length: Option<usize>, method: HttpMethod) -> Result<
    (),
    ValidatorError,
> {
    match method {
        HttpMethod::Get | HttpMethod::Head => match content_length {
            Some(n) => if n > 0 {
                Err(ValidatorError::BodyNotAllowed)
            } else {
                Ok(())
            },
            None => Ok(()),
        },
        HttpMethod::Post | HttpMethod::Put => match content_length {
            None => Err(ValidatorError::MissingContentLength),
            Some(n) => if n == 0 {
                Err(ValidatorError::MandatoryBody)
            } else {
                Ok(())
            },
        },
        _ => Ok(()),
    }
}

/// The size check: a declared length must not exceed `max_body_size`.
pub open spec fn size_check(content_length: Option<usize>, max_body_size: usize) -> Result<
    (),
    ValidatorError,
> {
    match content_length {
        Some(n) => if n > max_body_size {
            Err(ValidatorError::PayloadTooLarge)
        } else {
            Ok(())
        },
        None => Ok(()),
    }
}

/// All the checks, in their order: version, `Content-Length` syntax, method,
/// size. The result is that of the first check that fails.
pub open spec fn validate(r: RequestView, max_version: HttpVersion, max_body_size: usize) -> Result<
    (),
    ValidatorError,
> {
    if version_check(r.http_version, max_version) is Err {
        version_check(r.http_version, max_version)
    } else {
        match declared_length(r.headers) {
            Some(None) => Err(ValidatorError::MalformedHeaderField),
            Some(Some(n)) => if method_check(Some(n), r.method) is Err {
                method_check(Some(n), r.method)
            } else {
                size_check(Some(n), max_body_size)
            },
            None => method_check(None, r.method),
        }
    }
}

/// `GET` and `HEAD` requests and their declared body.
///
/// A `GET` or `HEAD` request of a supported version passes validation when
/// it declares a body of length zero, and fails with `BodyNotAllowed` when
/// it declares any other length, a length of one included.
pub proof fn lemma_body_not_allowed(
    r: RequestView,
    max_version: HttpVersion,
    max_body_size: usize,
    declared: usize,
)
    requires
        r.method == HttpMethod::Get || r.method == HttpMethod::Head,
        version_check(r.http_version, max_version) is Ok,
        declared_length(r.headers) == Some(Some(declared)),
    ensures
        declared == 0 ==> validate(r, max_version, max_body_size) == Ok::<(), ValidatorError>(()),
        declared > 0 ==> validate(r, max_version, max_body_size) == Err::<(), ValidatorError>(
            ValidatorError::BodyNotAllowed,
        ),
{
}

/// `POST` and `PUT` requests and their declared body.
///
/// A `POST` or `PUT` request of a supported version fails with
/// `MissingContentLength` when it declares no length, and with
/// `MandatoryBody` when it declares a length of zero.
pub proof fn lemma_body_required(r: RequestView, max_version: HttpVersion, max_body_size: usize)
    requires
        r.method == HttpMethod::Post || r.method == HttpMethod::Put,
        version_check(r.http_version, max_version) is Ok,
    ensures
        declared_length(r.headers) is None ==> validate(r, max_version, max_body_size) == Err::<
            (),
            ValidatorError,
        >(ValidatorError::MissingContentLength),
        declared_length(r.headers) == Some(Some(0usize)) ==> validate(
            r,
            max_version,
            max_body_size,
        ) == Err::<(), ValidatorError>(ValidatorError::MandatoryBody),
{
}

/// A declared body above the body size limit is refused.
///
/// A request that passes the version check and the method check and
/// declares a length above the limit fails with `PayloadTooLarge`; one that
/// declares a length within the limit, or none, passes.
pub proof fn lemma_payload_limit(r: RequestView, max_version: HttpVersion, max_body_size: usize)
    requires
        version_check(r.http_version, max_version) is Ok,
        declared_length(r.headers) != Some(None::<usize>),
        method_check(
            match declared_length(r.headers) {
                Some(n) => n,
                None => None,
            },
            r.method,
        ) is Ok,
    ensures
        validate(r, max_version, max_body_size) == (match declared_length(r.headers) {
            Some(Some(n)) => if n > max_body_size {
                Err(ValidatorError::PayloadTooLarge)
            } else {
                Ok(())
            },
            _ => Ok(()),
        }),
{
}

/// Validation at the checkpoint comes before the body.
///
/// When a feed ends at the `HeadersDone` checkpoint, the reader is at the
/// body stage and the body of the request holds what it held before the
/// feed: no byte was moved to it. What the validator refuses there was
/// refused before any body byte was read.
pub proof fn lemma_checkpoint_before_body(p: ParserView, r: RequestView, bytes: Seq<u8>)
    requires
        feed_spec(p, r, bytes).outcome == Ok::<ParserOk, ParserError>(ParserOk::HeadersDone),
    ensures
        feed_spec(p, r, bytes).request.body == r.body,
        feed_spec(p, r, bytes).parser.state == ParserState::Body,
{
    let q = ParserView { buffered: p.buffered + bytes, ..p };
    match q.state {
        ParserState::RequestLine => {
            let l = request_line_step(q, r);
            lemma_headers_step(l.parser, l.request);
        },
        ParserState::Headers => {
            lemma_headers_step(q, r);
        },
        ParserState::Body => {},
        ParserState::Done => {},
    }
}

/// The validator, with the part of the configuration it checks against.
#[derive(Debug, Clone, Copy)]
pub struct Validator {
    /// Greatest protocol version the server accepts.
    pub http_version: HttpVersion,
    /// Greatest body length the server accepts.
    pub max_body_size: usize,
}

impl Validator {
    /// A validator that checks against `config`.
    pub fn new(config: &ServerConfig) -> (v: Validator)
        ensures
            v.http_version == config.http_version,
            v.max_body_size == config.max_body_size,
    {
        Validator { http_version: config.http_version, max_body_size: config.max_body_size }
    }

    /// Checks that the version exists and is supported.
    pub fn validate_http_version(&self, v: (u8, u8)) -> (r: Result<(), ValidatorError>)
        ensures
            r == version_check(v, self.http_version),
    {
        match HttpVersion::is_valid(v) {
            Ok(version) => {
                if version.ordinal() <= self.http_version.ordinal() {
                    Ok(())
                } else {
                    Err(ValidatorError::HttpVersionNotSupported)
                }
            },
            Err(_) => Err(ValidatorError::Error),
        }
    }

    /// Checks that the method and the declared body agree.
    pub fn validate_http_method(content_length: Option<usize>, method: &HttpMethod) -> (r: Result<
        (),
        ValidatorError,
    >)
        ensures
            r == method_check(content_length, *method),
    {
        match method {
            HttpMethod::Get | HttpMethod::Head => match content_length {
                Some(n) => if n > 0 {
                    Err(ValidatorError::BodyNotAllowed)
                } else {
                    Ok(())
                },
                None => Ok(()),
            },
            HttpMethod::Post | HttpMethod::Put => match content_length {
                None => Err(ValidatorError::MissingContentLength),
                Some(n) => if n == 0 {
                    Err(ValidatorError::MandatoryBody)
                } else {
                    Ok(())
                },
            },
            _ => Ok(()),
        }
    }

    /// Runs every check on a request whose headers are complete.
    pub fn validate_request(&self, req: &HttpRequest) -> (r: Result<(), ValidatorError>)
        ensures
            r == validate(req@, self.http_version, self.max_body_size),
    {
        match self.validate_http_version(req.http_version) {
            Ok(()) => {},
            Err(e) => {
                return Err(e);
            },
        }
        proof {
            reveal_strlit("Content-Length");
            assert("Content-Length"@ =~= content_length_name());
        }
        let content_length: Option<usize> = match req.headers.get("Content-Length") {
            None => None,
            Some(text) => match read_decimal(text.as_str().as_bytes()) {
                Some(n) => Some(n),
                None => {
                    return Err(ValidatorError::MalformedHeaderField);
                },
            },
        };
        match Self::validate_http_method(content_length, &req.method) {
            Ok(()) => {},
            Err(e) => {
                return Err(e);
            },
        }
        match content_length {
            Some(n) => if n > self.max_body_size {
                Err(ValidatorError::PayloadTooLarge)
            } else {
                Ok(())
            },
            None => Ok(()),
        }
    }
}

} // verus!
