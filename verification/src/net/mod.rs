//! The reading side of a connection: what to do with the bytes that
//! arrived.
//!
//! The network layer owns the socket. Each time bytes arrive it hands them
//! over here and is told whether the request is complete, whether more
//! bytes are needed, or why the request is refused. The request is
//! validated once, at the checkpoint between headers and body, so that a
//! request can be refused before its body is read.

use crate::http::parser::{feed_spec, Parser, ParserError, ParserOk, ParserView, Step};
use crate::http::request::{HttpRequest, RequestView};
use crate::http::status::HttpStatus;
use crate::http::validator::{validate, Validator, ValidatorError};
use vstd::prelude::*;

verus! {

/// Why a request is refused while it is read.
#[derive(Debug, Clone, Copy, PartialEq, Eq, Structural)]
pub enum ReadError {
    /// The request is not well formed.
    Parser(ParserError),
    /// The request is well formed and not acceptable.
    Validator(ValidatorError),
}

impl ReadError {
    /// The status that reports the refusal to the client.
    pub open spec fn status(self) -> HttpStatus {
        match self {
            ReadError::Parser(e) => e.status(),
            ReadError::Validator(e) => e.status(),
        }
    }

    /// The status that reports the refusal to the client.
    pub fn into_http_status(self) -> (s: HttpStatus)
        ensures
            s == self.status(),
    {
        match self {
            ReadError::Parser(e) => e.into_http_status(),
            ReadError::Validator(e) => e.into_http_status(),
        }
    }
}

/// How far the request is after some bytes were received.
#[derive(Debug, Clone, Copy, PartialEq, Eq, Structural)]
pub enum Progress {
    /// The request is not complete: the network layer reads on.
    NeedMore,
    /// The request is complete.
    Complete,
}

/// The reader, the request and the outcome, after some bytes were
/// received.
pub ghost struct Received {
    pub parser: ParserView,
    pub request: RequestView,
    pub outcome: Result<Progress, ReadError>,
}

/// What a feed means to the network layer.
pub open spec fn reported(s: Step) -> Received {
    Received {
        parser: s.parser,
        request: s.request,
        outcome: match s.outcome {
            Err(e) => Err(ReadError::Parser(e)),
            Ok(ParserOk::Done) => Ok(Progress::Complete),
            Ok(_) => Ok(Progress::NeedMore),
        },
    }
}

/// Receiving bytes: they are fed to the reader. At the `HeadersDone`
/// checkpoint the request is validated; a request that is refused there
/// stays as it is at the checkpoint, and one that passes is read on with
/// what is buffered.
pub open spec fn received(p: ParserView, r: RequestView, v: Validator, bytes: Seq<u8>) -> Received {
    let s = feed_spec(p, r, bytes);
    if s.outcome == Ok::<ParserOk, ParserError>(ParserOk::HeadersDone) {
        match validate(s.request, v.http_version, v.max_body_size) {
            Err(e) => Received {
                parser: s.parser,
                request: s.request,
                outcome: Err(ReadError::Validator(e)),
            },
            Ok(()) => reported(feed_spec(s.parser, s.request, Seq::<u8>::empty())),
        }
    } else {
        reported(s)
    }
}

/// Takes the bytes that arrived on a connection and reads the request as
/// far as they allow, validating it at the checkpoint between headers and
/// body.
pub fn receive(parser: &mut Parser, validator: &Validator, req: &mut HttpRequest, bytes: &[u8]) -> (r:
    Result<Progress, ReadError>)
    ensures
        (Received { parser: final(parser)@, request: final(req)@, outcome: r }) == received(
            old(parser)@,
            old(req)@,
            *validator,
            bytes@,
        ),
        old(req).headers.wf() ==> final(req).headers.wf(),
{
    let first = match parser.feed(bytes, req) {
        Ok(outcome) => outcome,
        Err(e) => {
            return Err(ReadError::Parser(e));
        },
    };
    match first {
        ParserOk::HeadersDone => {},
        ParserOk::Done => {
            return Ok(Progress::Complete);
        },
        _ => {
            return Ok(Progress::NeedMore);
        },
    }
    match validator.validate_request(req) {
        Ok(()) => {},
        Err(e) => {
            return Err(ReadError::Validator(e));
        },
    }
    let nothing: [u8; 0] = [];
    assert(nothing@ =~= Seq::<u8>::empty());
    match parser.feed(nothing.as_slice(), req) {
        Ok(ParserOk::Done) => Ok(Progress::Complete),
        Ok(_) => Ok(Progress::NeedMore),
        Err(e) => Err(ReadError::Parser(e)),
    }
}

} // verus!
