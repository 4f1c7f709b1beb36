//! The incremental request reader.
//!
//! A request is read in three stages: request line, headers, body. Each
//! stage consumes a prefix of the bytes buffered so far and fills in part of
//! the request. The reader never performs I/O: the caller feeds it whatever
//! bytes arrived, in any fragmentation, and is told whether more are needed.
//!
//! The reader checks syntax only. When the headers are complete it reports
//! `HeadersDone` once, so that the caller can validate the request before
//! any body byte is read.

use crate::bytes::{
    eq_ignore_case, equal_ignoring_case, find, find_in, is_forbidden_control, is_tchar,
    lemma_ascii_is_utf8, lemma_find, position_of, tchar, trim_bounds, trim_space, utf8_text,
};
use crate::config::ServerConfig;
use crate::decimal::{parse_decimal, read_decimal};
use crate::http::grammar::{
    crlf, field_name_ok, field_value_ok, header_field, read_request_line, request_line,
};
use crate::http::headers::{lookup, upsert, Entry};
use crate::http::request::{
    accept_encoding_name, content_length_name, content_type_name, host_name, HttpRequest,
    RequestHeader, RequestView,
};
use crate::http::status::HttpStatus;
use vstd::prelude::*;
use vstd::slice::slice_subrange;
use vstd::string::StringSliceAdditionalSpecFns;
use vstd::utf8::{decode_utf8, encode_utf8, encode_utf8_decode_utf8};

verus! {

/// What a call of the reader achieved.
#[derive(Debug, Clone, Copy, PartialEq, Eq, Structural)]
pub enum ParserOk {
    /// A stage completed and consumed its input.
    StageDone,
    /// More data is required to complete the current field.
    Incomplete,
    /// The headers are complete and can be validated.
    HeadersDone,
    /// The whole request has been read.
    Done,
}

/// Why the reader gave up on a request.
#[derive(Debug, Clone, Copy, PartialEq, Eq, Structural)]
pub enum ParserError {
    /// The input is not a well-formed request.
    Error,
    /// The request target is longer than the configured limit.
    TooLongUri,
    /// The input does not fit into the reader's buffer.
    BufferOverflow,
}

impl ParserError {
    /// The status that reports this failure to the client.
    pub open spec fn status(self) -> HttpStatus {
        match self {
            ParserError::Error => HttpStatus::BadRequest,
            ParserError::TooLongUri => HttpStatus::UriTooLong,
            ParserError::BufferOverflow => HttpStatus::BadRequest,
        }
    }

    /// The status that reports this failure to the client.
    pub fn into_http_status(self) -> (s: HttpStatus)
        ensures
            s == self.status(),
    {
        match self {
            ParserError::Error => HttpStatus::BadRequest,
            ParserError::TooLongUri => HttpStatus::UriTooLong,
            ParserError::BufferOverflow => HttpStatus::BadRequest,
        }
    }
}

/// Capacity of the reader's buffer, in bytes.
pub const PARSER_BUF_CAP: usize = 4096;

/// The stage the reader is in. The stages follow one another in this order
/// and `Done` is final.
#[derive(Debug, Clone, Copy, PartialEq, Eq, Structural)]
pub enum ParserState {
    RequestLine,
    Headers,
    Body,
    Done,
}

impl ParserState {
    /// Position of the stage in the order of stages.
    pub open spec fn rank(self) -> nat {
        match self {
            ParserState::RequestLine => 0,
            ParserState::Headers => 1,
            ParserState::Body => 2,
            ParserState::Done => 3,
        }
    }
}

/// The limits that the reader enforces.
#[derive(Debug, Clone, Copy, PartialEq, Eq, Structural)]
pub struct Limits {
    pub max_request_line_size: usize,
    pub max_uri_size: usize,
    pub max_header_size: usize,
    pub max_body_size: usize,
}

/// What a reader holds, as plain values.
pub ghost struct ParserView {
    /// The bytes received and not yet consumed, oldest first.
    pub buffered: Seq<u8>,
    pub state: ParserState,
    /// The number of header-section bytes consumed so far.
    pub header_bytes: nat,
    pub limits: Limits,
}

/// The reader, the request it fills and the outcome, after a step.
pub ghost struct Step {
    pub parser: ParserView,
    pub request: RequestView,
    pub outcome: Result<ParserOk, ParserError>,
}

/// A failed step: nothing is consumed and nothing is stored.
pub open spec fn failed(p: ParserView, r: RequestView, e: ParserError) -> Step {
    Step { parser: p, request: r, outcome: Err(e) }
}

/// A step that needs more input: nothing is consumed and nothing is stored.
pub open spec fn starved(p: ParserView, r: RequestView) -> Step {
    Step { parser: p, request: r, outcome: Ok(ParserOk::Incomplete) }
}

/// The buffered bytes do not exceed the capacity.
pub open spec fn fits(p: ParserView) -> bool {
    p.buffered.len() <= PARSER_BUF_CAP
}

/// The request line stage.
///
/// Without a line terminator in the buffer the stage waits, unless more
/// bytes are buffered than a request line may have. A line longer than the
/// limit fails. Otherwise the line is read: on success its three parts are
/// stored, the line and its terminator are consumed, and the reader moves on
/// to the headers.
pub open spec fn request_line_step(p: ParserView, r: RequestView) -> Step {
    match find(p.buffered, crlf()) {
        None => if p.buffered.len() > p.limits.max_request_line_size {
            failed(p, r, ParserError::Error)
        } else {
            starved(p, r)
        },
        Some(end) => if end > p.limits.max_request_line_size {
            failed(p, r, ParserError::Error)
        } else {
            match request_line(p.buffered.take(end), p.limits.max_uri_size) {
                Err(e) => failed(p, r, e),
                Ok(line) => Step {
                    parser: ParserView {
                        buffered: p.buffered.skip(end + 2),
                        state: ParserState::Headers,
                        ..p
                    },
                    request: RequestView {
                        method: line.method,
                        uri: line.uri,
                        http_version: line.version,
                        ..r
                    },
                    outcome: Ok(ParserOk::StageDone),
                },
            }
        },
    }
}

/// A field name names the header `header`, whatever the case of its letters.
pub open spec fn names(field: Seq<u8>, header: Seq<char>) -> bool {
    eq_ignore_case(field, encode_utf8(header))
}

/// The headers after a field is stored. Only `Host`, `Content-Length`,
/// `Content-Type` and `Accept-Encoding` are kept, each under its canonical
/// name; any other field leaves the headers as they are. A `Content-Length`
/// whose value is not a length is refused.
pub open spec fn store_field(headers: Seq<Entry>, name: Seq<u8>, value: Seq<u8>) -> Option<
    Seq<Entry>,
> {
    if names(name, host_name()) {
        Some(upsert(headers, host_name(), decode_utf8(value)))
    } else if names(name, content_length_name()) {
        if parse_decimal(value) is Some {
            Some(upsert(headers, content_length_name(), decode_utf8(value)))
        } else {
            None
        }
    } else if names(name, content_type_name()) {
        Some(upsert(headers, content_type_name(), decode_utf8(value)))
    } else if names(name, accept_encoding_name()) {
        Some(upsert(headers, accept_encoding_name(), decode_utf8(value)))
    } else {
        Some(headers)
    }
}

/// The headers after a header line, given without its terminator, is read
/// and stored; `None` when the line is malformed.
pub open spec fn header_line(headers: Seq<Entry>, line: Seq<u8>) -> Option<Seq<Entry>> {
    match header_field(line) {
        None => None,
        Some((name, value)) => store_field(headers, name, value),
    }
}

/// The header stage.
///
/// The stage reads one terminated line after the other. Each line counts,
/// with its terminator, against the header size limit as soon as its end is
/// found; the line that crosses the limit fails. An empty line ends the
/// headers: it is consumed and the reader moves on to the body. When no
/// terminated line is left the stage waits, unless the buffer is full, which
/// no later input could mend.
pub open spec fn headers_step(p: ParserView, r: RequestView) -> Step
    decreases p.buffered.len(),
{
    match find(p.buffered, crlf()) {
        None => if p.buffered.len() == PARSER_BUF_CAP {
            failed(p, r, ParserError::Error)
        } else {
            starved(p, r)
        },
        Some(end) => if p.header_bytes + end + 2 > p.limits.max_header_size {
            failed(p, r, ParserError::Error)
        } else if end == 0 {
            Step {
                parser: ParserView {
                    buffered: p.buffered.skip(2),
                    state: ParserState::Body,
                    header_bytes: p.header_bytes + 2,
                    ..p
                },
                request: r,
                outcome: Ok(ParserOk::StageDone),
            }
        } else {
            match header_line(r.headers, p.buffered.take(end)) {
                None => failed(p, r, ParserError::Error),
                Some(headers) => {
                    proof {
                        lemma_find(p.buffered, crlf());
                    }
                    headers_step(
                        ParserView {
                            buffered: p.buffered.skip(end + 2),
                            header_bytes: (p.header_bytes + end + 2) as nat,
                            ..p
                        },
                        RequestView { headers, ..r },
                    )
                },
            }
        },
    }
}

/// What the header stage can do: it waits, fails with `Error`, or completes
/// and moves on to the body. It only ever consumes a prefix of what is
/// buffered, adds what it consumed to the header byte count, and changes
/// nothing of the request but its headers.
pub proof fn lemma_headers_step(p: ParserView, r: RequestView)
    ensures
        ({
            let s = headers_step(p, r);
            &&& s.outcome == Ok::<ParserOk, ParserError>(ParserOk::StageDone) || s.outcome == Ok::<
                ParserOk,
                ParserError,
            >(ParserOk::Incomplete) || s.outcome == Err::<ParserOk, ParserError>(
                ParserError::Error,
            )
            &&& s.parser.limits == p.limits
            &&& s.parser.state == if s.outcome == Ok::<ParserOk, ParserError>(
                ParserOk::StageDone,
            ) {
                ParserState::Body
            } else {
                p.state
            }
            &&& s.parser.header_bytes >= p.header_bytes
            &&& s.parser.header_bytes - p.header_bytes + s.parser.buffered.len()
                == p.buffered.len()
            &&& s.parser.buffered == p.buffered.skip(s.parser.header_bytes - p.header_bytes)
            &&& s.outcome is Ok ==> s.parser.header_bytes <= p.limits.max_header_size
                || s.parser.header_bytes == p.header_bytes
            &&& s.request == (RequestView { headers: s.request.headers, ..r })
        }),
    decreases p.buffered.len(),
{
    lemma_find(p.buffered, crlf());
    assert(p.buffered.skip(0) =~= p.buffered);
    match find(p.buffered, crlf()) {
        None => {},
        Some(end) => {
            if p.header_bytes + end + 2 > p.limits.max_header_size {
            } else if end == 0 {
            } else {
                match header_line(r.headers, p.buffered.take(end)) {
                    None => {},
                    Some(headers) => {
                        let moved = ParserView {
                            buffered: p.buffered.skip(end + 2),
                            header_bytes: (p.header_bytes + end + 2) as nat,
                            ..p
                        };
                        let stored = RequestView { headers, ..r };
                        lemma_headers_step(moved, stored);
                        let s = headers_step(moved, stored);
                        let k = s.parser.header_bytes - moved.header_bytes;
                        assert(p.buffered.skip(end + 2).skip(k) =~= p.buffered.skip(end + 2 + k));
                    },
                }
            }
        },
    }
}

/// The length that the request declares for its body: `None` without a
/// `Content-Length` header, `Some(None)` when its value is not a length.
pub open spec fn declared_length(headers: Seq<Entry>) -> Option<Option<usize>> {
    match lookup(headers, content_length_name()) {
        None => None,
        Some(text) => Some(parse_decimal(encode_utf8(text))),
    }
}

/// The body stage.
///
/// A request without `Content-Length` has no body and is complete at once.
/// Otherwise as many buffered bytes as the body still lacks are moved to it,
/// unless the body would then exceed the body size limit. The request is
/// complete when the body has the declared length.
pub open spec fn body_step(p: ParserView, r: RequestView) -> Step {
    match declared_length(r.headers) {
        None => Step {
            parser: ParserView { state: ParserState::Done, ..p },
            request: r,
            outcome: Ok(ParserOk::Done),
        },
        Some(None) => failed(p, r, ParserError::Error),
        Some(Some(declared)) => {
            let remaining = if declared >= r.body.len() {
                declared - r.body.len()
            } else {
                0
            };
            let to_copy = if p.buffered.len() <= remaining {
                p.buffered.len() as int
            } else {
                remaining
            };
            if r.body.len() + to_copy > p.limits.max_body_size {
                failed(p, r, ParserError::Error)
            } else if r.body.len() + to_copy == declared {
                Step {
                    parser: ParserView {
                        buffered: p.buffered.skip(to_copy),
                        state: ParserState::Done,
                        ..p
                    },
                    request: RequestView { body: r.body + p.buffered.take(to_copy), ..r },
                    outcome: Ok(ParserOk::Done),
                }
            } else {
                Step {
                    parser: ParserView { buffered: p.buffered.skip(to_copy), ..p },
                    request: RequestView { body: r.body + p.buffered.take(to_copy), ..r },
                    outcome: Ok(ParserOk::Incomplete),
                }
            }
        },
    }
}

/// The header stage as the driver reports it: its completion is the
/// `HeadersDone` checkpoint.
pub open spec fn headers_checkpoint(p: ParserView, r: RequestView) -> Step {
    let s = headers_step(p, r);
    if s.outcome == Ok::<ParserOk, ParserError>(ParserOk::StageDone) {
        Step { outcome: Ok(ParserOk::HeadersDone), ..s }
    } else {
        s
    }
}

/// Runs the stages on what is buffered, from the current stage on, until
/// one of them waits or fails, the headers are complete, or the request is.
pub open spec fn run(p: ParserView, r: RequestView) -> Step {
    match p.state {
        ParserState::RequestLine => {
            let s = request_line_step(p, r);
            if s.outcome == Ok::<ParserOk, ParserError>(ParserOk::StageDone) {
                headers_checkpoint(s.parser, s.request)
            } else {
                s
            }
        },
        ParserState::Headers => headers_checkpoint(p, r),
        ParserState::Body => body_step(p, r),
        ParserState::Done => Step { parser: p, request: r, outcome: Ok(ParserOk::Done) },
    }
}

/// One feed: the new bytes are buffered, unless they do not fit, and the
/// stages run.
pub open spec fn feed_spec(p: ParserView, r: RequestView, bytes: Seq<u8>) -> Step {
    if p.buffered.len() + bytes.len() > PARSER_BUF_CAP {
        failed(p, r, ParserError::BufferOverflow)
    } else {
        run(ParserView { buffered: p.buffered + bytes, ..p }, r)
    }
}

/// The reader of one connection.
pub struct Parser {
    buf: [u8; PARSER_BUF_CAP],
    buf_len: usize,
    state: ParserState,
    headers_bytes_parsed: usize,
    limits: Limits,
}

impl View for Parser {
    type V = ParserView;

    closed spec fn view(&self) -> ParserView {
        ParserView {
            buffered: self.buf@.subrange(0, self.buf_len as int),
            state: self.state,
            header_bytes: self.headers_bytes_parsed as nat,
            limits: self.limits,
        }
    }
}

impl Parser {
    /// The unconsumed bytes lie at the start of the buffer.
    #[verifier::type_invariant]
    spec fn buffer_in_bounds(self) -> bool {
        self.buf_len <= PARSER_BUF_CAP
    }

    /// A reader at the start of a request, with the limits of `config`.
    pub fn new(config: &ServerConfig) -> (parser: Parser)
        ensures
            parser@ == (ParserView {
                buffered: Seq::<u8>::empty(),
                state: ParserState::RequestLine,
                header_bytes: 0,
                limits: Limits {
                    max_request_line_size: config.max_request_line_size,
                    max_uri_size: config.max_uri_size,
                    max_header_size: config.max_header_size,
                    max_body_size: config.max_body_size,
                },
            }),
    {
        let parser = Parser {
            buf: [0u8; PARSER_BUF_CAP],
            buf_len: 0,
            state: ParserState::RequestLine,
            headers_bytes_parsed: 0,
            limits: Limits {
                max_request_line_size: config.max_request_line_size,
                max_uri_size: config.max_uri_size,
                max_header_size: config.max_header_size,
                max_body_size: config.max_body_size,
            },
        };
        assert(parser@.buffered =~= Seq::<u8>::empty());
        parser
    }

    /// Whether every buffered byte has been consumed.
    pub fn is_buffer_empty(&self) -> (r: bool)
        ensures
            r == (self@.buffered.len() == 0),
            fits(self@),
    {
        proof {
            use_type_invariant(self);
        }
        self.buf_len == 0
    }

    /// The buffered bytes.
    fn buffered(&self) -> (r: &[u8])
        ensures
            r@ == self@.buffered,
            fits(self@),
    {
        proof {
            use_type_invariant(self);
        }
        slice_subrange(self.buf.as_slice(), 0, self.buf_len)
    }

    /// The first index at which `pattern` occurs among the buffered bytes.
    pub fn find_delimiter(&self, pattern: &[u8]) -> (r: Option<usize>)
        requires
            pattern@.len() > 0,
        ensures
            match r {
                Some(i) => find(self@.buffered, pattern@) == Some(i as int) && i + pattern@.len()
                    <= self@.buffered.len(),
                None => find(self@.buffered, pattern@) is None,
            },
            fits(self@),
    {
        proof {
            lemma_find(self@.buffered, pattern@);
        }
        find_in(self.buffered(), pattern)
    }

    /// Drops the first `n` buffered bytes and moves the rest to the front.
    fn consume(&mut self, n: usize)
        requires
            n <= old(self)@.buffered.len(),
        ensures
            final(self)@ == (ParserView { buffered: old(self)@.buffered.skip(n as int), ..old(self)@ }),
    {
        proof {
            use_type_invariant(&*self);
        }
        let remaining: usize = self.buf_len - n;
        let ghost before = self.buf@;
        let mut i: usize = 0;
        while i < remaining
            invariant
                i <= remaining,
                remaining + n == self.buf_len <= PARSER_BUF_CAP,
                self.buf_len == old(self).buf_len,
                self.state == old(self).state,
                self.headers_bytes_parsed == old(self).headers_bytes_parsed,
                self.limits == old(self).limits,
                before == old(self).buf@,
                forall|j: int| 0 <= j < i ==> self.buf@[j] == before[j + n],
                forall|j: int| i <= j < PARSER_BUF_CAP ==> self.buf@[j] == before[j],
            decreases remaining - i,
        {
            let b: u8 = self.buf[i + n];
            self.buf[i] = b;
            i = i + 1;
        }
        self.buf_len = remaining;
        assert(self@.buffered =~= old(self)@.buffered.skip(n as int));
    }

    /// Appends bytes to the buffer. Bytes that do not fit are refused and
    /// the buffer stays as it was.
    pub fn fill_buffer(&mut self, buf: &[u8]) -> (r: Result<(), ParserError>)
        ensures
            match r {
                Ok(()) => {
                    &&& old(self)@.buffered.len() + buf@.len() <= PARSER_BUF_CAP
                    &&& final(self)@ == (ParserView {
                        buffered: old(self)@.buffered + buf@,
                        ..old(self)@
                    })
                },
                Err(e) => {
                    &&& old(self)@.buffered.len() + buf@.len() > PARSER_BUF_CAP
                    &&& e == ParserError::BufferOverflow
                    &&& final(self)@ == old(self)@
                },
            },
            fits(final(self)@),
    {
        proof {
            use_type_invariant(&*self);
        }
        let n: usize = buf.len();
        if n > PARSER_BUF_CAP - self.buf_len {
            return Err(ParserError::BufferOverflow);
        }
        let start: usize = self.buf_len;
        let mut i: usize = 0;
        while i < n
            invariant
                i <= n == buf@.len(),
                start + n <= PARSER_BUF_CAP,
                start == old(self).buf_len,
                self.buf_len == old(self).buf_len,
                self.state == old(self).state,
                self.headers_bytes_parsed == old(self).headers_bytes_parsed,
                self.limits == old(self).limits,
                forall|j: int| 0 <= j < start ==> self.buf@[j] == old(self).buf@[j],
                forall|j: int| 0 <= j < i ==> self.buf@[start + j] == buf@[j],
            decreases n - i,
        {
            let b: u8 = buf[i];
            self.buf[start + i] = b;
            i = i + 1;
        }
        self.buf_len = start + n;
        assert(self@.buffered =~= old(self)@.buffered + buf@);
        Ok(())
    }

    /// Runs the request line stage on what is buffered.
    pub fn parse_request_line(&mut self, req: &mut HttpRequest) -> (r: Result<
        ParserOk,
        ParserError,
    >)
        ensures
            (Step { parser: final(self)@, request: final(req)@, outcome: r }) == request_line_step(
                old(self)@,
                old(req)@,
            ),
            fits(final(self)@),
            old(req).headers.wf() ==> final(req).headers.wf(),
    {
        proof {
            use_type_invariant(&*self);
        }
        let terminator: [u8; 2] = [0x0D, 0x0A];
        assert(terminator@ =~= crlf());
        let end: usize = match self.find_delimiter(terminator.as_slice()) {
            Some(idx) => idx,
            None => {
                if self.buf_len > self.limits.max_request_line_size {
                    return Err(ParserError::Error);
                }
                return Ok(ParserOk::Incomplete);
            },
        };
        if end > self.limits.max_request_line_size {
            return Err(ParserError::Error);
        }
        assert(self@.buffered.take(end as int) =~= self.buf@.subrange(0, end as int));
        let line = slice_subrange(self.buf.as_slice(), 0, end);
        match read_request_line(line, self.limits.max_uri_size) {
            Err(e) => {
                return Err(e);
            },
            Ok((method, uri, version)) => {
                req.method = method;
                req.uri = uri;
                req.http_version = version;
            },
        }
        self.consume(end + 2);
        proof {
            use_type_invariant(&*self);
        }
        self.state = ParserState::Headers;
        Ok(ParserOk::StageDone)
    }

    /// Checks a header field name and gives it as text: the name must not
    /// be empty and must consist of token characters.
    pub fn get_header_name(name: &[u8]) -> (r: Result<&str, ParserError>)
        ensures
            r is Ok <==> field_name_ok(name@),
            r matches Ok(text) ==> text.spec_bytes() == name@,
            r matches Err(e) ==> e == ParserError::Error,
    {
        let n: usize = name.len();
        if n == 0 {
            return Err(ParserError::Error);
        }
        let mut i: usize = 0;
        while i < n
            invariant
                i <= n == name@.len(),
                forall|j: int| 0 <= j < i ==> is_tchar(#[trigger] name@[j]),
            decreases n - i,
        {
            if !tchar(name[i]) {
                return Err(ParserError::Error);
            }
            i = i + 1;
        }
        proof {
            assert forall|j: int| 0 <= j < name@.len() implies #[trigger] name@[j] < 0x80 by {
                assert(is_tchar(name@[j]));
            }
            lemma_ascii_is_utf8(name@);
        }
        match utf8_text(name) {
            Some(text) => Ok(text),
            None => Err(ParserError::Error),
        }
    }

    /// Checks a raw header field value and gives it as text, without the
    /// white space around it: the value must hold no control byte other
    /// than horizontal tab.
    pub fn get_header_value(value: &[u8]) -> (r: Result<&str, ParserError>)
        ensures
            r is Ok <==> field_value_ok(value@),
            r matches Ok(text) ==> text.spec_bytes() == trim_space(value@),
            r matches Err(e) ==> e == ParserError::Error,
    {
        let n: usize = value.len();
        let mut i: usize = 0;
        while i < n
            invariant
                i <= n == value@.len(),
                forall|j: int| 0 <= j < i ==> !is_forbidden_control(#[trigger] value@[j]),
            decreases n - i,
        {
            let b: u8 = value[i];
            if (b < 0x20 && b != 0x09) || b == 0x7F {
                return Err(ParserError::Error);
            }
            i = i + 1;
        }
        assert(value@.subrange(0, n as int) =~= value@);
        let (start, end) = trim_bounds(value, 0, n);
        match utf8_text(slice_subrange(value, start, end)) {
            Some(text) => Ok(text),
            None => Err(ParserError::Error),
        }
    }

    /// Reads a header line, given without its terminator, and stores the
    /// field if it is one of those that are kept. A malformed line leaves the
    /// request as it was.
    fn store_header_line(line: &[u8], req: &mut HttpRequest) -> (r: Result<(), ParserError>)
        ensures
            match header_line(old(req)@.headers, line@) {
                Some(headers) => r is Ok && final(req)@ == (RequestView {
                    headers,
                    ..old(req)@
                }),
                None => r == Err::<(), ParserError>(ParserError::Error) && final(req)@
                    == old(req)@,
            },
            old(req).headers.wf() ==> final(req).headers.wf(),
    {
        let n: usize = line.len();
        assert(line@.subrange(0, n as int) =~= line@);
        let colon: usize = position_of(line, 0, n, 0x3A);
        if colon >= n {
            return Err(ParserError::Error);
        }
        assert(line@.take(colon as int) =~= line@.subrange(0, colon as int));
        assert(line@.skip(colon + 1) =~= line@.subrange(colon + 1, n as int));
        let name: &str = match Self::get_header_name(slice_subrange(line, 0, colon)) {
            Ok(text) => text,
            Err(e) => {
                return Err(e);
            },
        };
        let value: &str = match Self::get_header_value(slice_subrange(line, colon + 1, n)) {
            Ok(text) => text,
            Err(e) => {
                return Err(e);
            },
        };
        proof {
            reveal_strlit("Host");
            reveal_strlit("Content-Length");
            reveal_strlit("Content-Type");
            reveal_strlit("Accept-Encoding");
            assert("Host"@ =~= host_name());
            assert("Content-Length"@ =~= content_length_name());
            assert("Content-Type"@ =~= content_type_name());
            assert("Accept-Encoding"@ =~= accept_encoding_name());
            encode_utf8_decode_utf8(value@);
        }
        let field: &[u8] = name.as_bytes();
        if equal_ignoring_case(field, "Host".as_bytes()) {
            req.set_header(RequestHeader::Host, value);
        } else if equal_ignoring_case(field, "Content-Length".as_bytes()) {
            if read_decimal(value.as_bytes()).is_none() {
                return Err(ParserError::Error);
            }
            req.set_header(RequestHeader::ContentLength, value);
        } else if equal_ignoring_case(field, "Content-Type".as_bytes()) {
            req.set_header(RequestHeader::ContentType, value);
        } else if equal_ignoring_case(field, "Accept-Encoding".as_bytes()) {
            req.headers.set_raw("Accept-Encoding", value);
        }
        Ok(())
    }

    /// Runs the header stage on what is buffered.
    pub fn parse_headers(&mut self, req: &mut HttpRequest) -> (r: Result<ParserOk, ParserError>)
        ensures
            (Step { parser: final(self)@, request: final(req)@, outcome: r }) == headers_step(
                old(self)@,
                old(req)@,
            ),
            fits(final(self)@),
            old(req).headers.wf() ==> final(req).headers.wf(),
    {
        let terminator: [u8; 2] = [0x0D, 0x0A];
        assert(terminator@ =~= crlf());
        loop
            invariant
                terminator@ == crlf(),
                headers_step(self@, req@) == headers_step(old(self)@, old(req)@),
                old(req).headers.wf() ==> req.headers.wf(),
            decreases self@.buffered.len(),
        {
            proof {
                use_type_invariant(&*self);
            }
            let end: usize = match self.find_delimiter(terminator.as_slice()) {
                Some(idx) => idx,
                None => {
                    if self.buf_len == PARSER_BUF_CAP {
                        return Err(ParserError::Error);
                    }
                    return Ok(ParserOk::Incomplete);
                },
            };
            let consumed: usize = end + 2;
            let limit: usize = self.limits.max_header_size;
            if self.headers_bytes_parsed > limit || consumed > limit - self.headers_bytes_parsed {
                return Err(ParserError::Error);
            }
            if end == 0 {
                self.consume(consumed);
                proof {
                    use_type_invariant(&*self);
                }
                self.headers_bytes_parsed = self.headers_bytes_parsed + consumed;
                self.state = ParserState::Body;
                return Ok(ParserOk::StageDone);
            }
            assert(self@.buffered.take(end as int) =~= self.buf@.subrange(0, end as int));
            let line = slice_subrange(self.buf.as_slice(), 0, end);
            match Self::store_header_line(line, req) {
                Ok(()) => {},
                Err(e) => {
                    return Err(e);
                },
            }
            self.consume(consumed);
            proof {
                use_type_invariant(&*self);
            }
            self.headers_bytes_parsed = self.headers_bytes_parsed + consumed;
        }
    }

    /// Runs the body stage on what is buffered.
    pub fn parse_body(&mut self, req: &mut HttpRequest) -> (r: Result<ParserOk, ParserError>)
        ensures
            (Step { parser: final(self)@, request: final(req)@, outcome: r }) == body_step(
                old(self)@,
                old(req)@,
            ),
            fits(final(self)@),
            old(req).headers.wf() ==> final(req).headers.wf(),
    {
        proof {
            use_type_invariant(&*self);
            reveal_strlit("Content-Length");
            assert("Content-Length"@ =~= content_length_name());
        }
        let content_length: usize = match req.headers.get("Content-Length") {
            Some(text) => match read_decimal(text.as_str().as_bytes()) {
                Some(n) => n,
                None => {
                    return Err(ParserError::Error);
                },
            },
            None => {
                self.state = ParserState::Done;
                return Ok(ParserOk::Done);
            },
        };
        let body_len: usize = req.body.len();
        let remaining: usize = if content_length >= body_len {
            content_length - body_len
        } else {
            0
        };
        let to_copy: usize = if self.buf_len <= remaining {
            self.buf_len
        } else {
            remaining
        };
        let limit: usize = self.limits.max_body_size;
        if body_len > limit || to_copy > limit - body_len {
            return Err(ParserError::Error);
        }
        assert(self@.buffered.take(to_copy as int) =~= self.buf@.subrange(0, to_copy as int));
        req.body.extend_from_slice(slice_subrange(self.buf.as_slice(), 0, to_copy));
        self.consume(to_copy);
        proof {
            use_type_invariant(&*self);
            assert(req@.body == old(req)@.body + old(self)@.buffered.take(to_copy as int));
        }
        if req.body.len() == content_length {
            self.state = ParserState::Done;
            return Ok(ParserOk::Done);
        }
        Ok(ParserOk::Incomplete)
    }

    /// Feeds the bytes that arrived to the reader and reads as far as they
    /// allow.
    ///
    /// The call returns `Incomplete` when the current stage needs more
    /// input, `HeadersDone` once when the headers are complete, and `Done`
    /// when the request is. An empty `buf` is allowed: the reader then goes
    /// on with what it has buffered.
    pub fn feed(&mut self, buf: &[u8], req: &mut HttpRequest) -> (r: Result<ParserOk, ParserError>)
        ensures
            (Step { parser: final(self)@, request: final(req)@, outcome: r }) == feed_spec(
                old(self)@,
                old(req)@,
                buf@,
            ),
            fits(final(self)@),
            old(req).headers.wf() ==> final(req).headers.wf(),
    {
        match self.fill_buffer(buf) {
            Ok(()) => {},
            Err(e) => {
                return Err(e);
            },
        }
        let ghost target = run(self@, req@);
        loop
            invariant
                run(self@, req@) == target,
                target == feed_spec(old(self)@, old(req)@, buf@),
                old(req).headers.wf() ==> req.headers.wf(),
            decreases 3 - self@.state.rank(),
        {
            proof {
                use_type_invariant(&*self);
                lemma_headers_step(self@, req@);
            }
            let outcome: ParserOk = match self.state {
                ParserState::RequestLine => match self.parse_request_line(req) {
                    Ok(o) => o,
                    Err(e) => {
                        return Err(e);
                    },
                },
                ParserState::Headers => match self.parse_headers(req) {
                    Ok(ParserOk::StageDone) => ParserOk::HeadersDone,
                    Ok(o) => o,
                    Err(e) => {
                        return Err(e);
                    },
                },
                ParserState::Body => match self.parse_body(req) {
                    Ok(o) => o,
                    Err(e) => {
                        return Err(e);
                    },
                },
                ParserState::Done => {
                    return Ok(ParserOk::Done);
                },
            };
            match outcome {
                ParserOk::Incomplete => {
                    return Ok(outcome);
                },
                ParserOk::HeadersDone => {
                    return Ok(outcome);
                },
                _ => {},
            }
        }
    }
}

} // verus!
