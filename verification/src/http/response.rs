//! The response model and its serialized head.

use crate::config::ServerConfig;
use crate::decimal::{decimal_string, decimal_text};
use crate::http::headers::{header_lines, lemma_name_index_is, upsert, Entry, HttpHeaders};
use crate::http::status::HttpStatus;
use vstd::prelude::*;
use vstd::string::StringExecFns;

verus! {

/// The response headers that can be set by kind rather than by raw name.
#[derive(Debug, Clone, Copy, PartialEq, Eq, Structural)]
pub enum ResponseHeader {
    ContentLength,
    ContentType,
    ContentEncoding,
    Connection,
    Date,
    Server,
}

impl ResponseHeader {
    /// The name under which the header is stored.
    pub open spec fn name(self) -> Seq<char> {
        match self {
            ResponseHeader::ContentType => "Content-Type"@,
            ResponseHeader::ContentLength => "Content-Length"@,
            ResponseHeader::ContentEncoding => "Content-Encoding"@,
            ResponseHeader::Connection => "Connection"@,
            ResponseHeader::Date => "Date"@,
            ResponseHeader::Server => "Server"@,
        }
    }
}

/// The reason phrase that goes with a status on the status line.
pub open spec fn reason_phrase(status: HttpStatus) -> Seq<char> {
    match status {
        HttpStatus::BadRequest => "Bad Request"@,
        HttpStatus::Forbidden => "Forbidden"@,
        HttpStatus::NotFound => "Not Found"@,
        HttpStatus::MethodNotAllowed => "Method Not Allowed"@,
        HttpStatus::LengthRequired => "Content-Length field required"@,
        HttpStatus::PayloadTooLarge => "Payload Too Large"@,
        HttpStatus::UriTooLong => "URI Too Long"@,
        HttpStatus::InternalServerError => "Internal Server Error"@,
        HttpStatus::HttpVersionNotSupported => "HTTP Version Not Supported"@,
        HttpStatus::Okay => ""@,
    }
}

/// The reason phrase that goes with a status on the status line.
pub fn error_code_stringify(code: HttpStatus) -> (r: &'static str)
    ensures
        r@ == reason_phrase(code),
{
    match code {
        HttpStatus::BadRequest => "Bad Request",
        HttpStatus::Forbidden => "Forbidden",
        HttpStatus::NotFound => "Not Found",
        HttpStatus::MethodNotAllowed => "Method Not Allowed",
        HttpStatus::LengthRequired => "Content-Length field required",
        HttpStatus::PayloadTooLarge => "Payload Too Large",
        HttpStatus::UriTooLong => "URI Too Long",
        HttpStatus::InternalServerError => "Internal Server Error",
        HttpStatus::HttpVersionNotSupported => "HTTP Version Not Supported",
        HttpStatus::Okay => "",
    }
}

/// The first time, in seconds since the start of 1970, that is beyond the
/// year 9999 and cannot be written as an HTTP date.
pub const HTTP_DATE_END: u64 = 253402300800;

/// The text that `httpdate::fmt_http_date` gives for the time that lies
/// `secs` seconds after the start of 1970.
pub uninterp spec fn http_date_text(secs: u64) -> Seq<char>;

/// Formats a time with `httpdate::fmt_http_date`, which writes it as an
/// IMF-fixdate such as `Fri, 15 May 2015 15:34:21 GMT`. The result depends
/// on the time alone. Times beyond the year 9999 are left out: for them the
/// formatter does not return.
#[verifier::external_body]
fn fmt_http_date(secs: u64) -> (s: String)
    requires
        secs < HTTP_DATE_END,
    ensures
        s@ == http_date_text(secs),
{
    httpdate::fmt_http_date(std::time::UNIX_EPOCH + std::time::Duration::from_secs(secs))
}

/// A response.
pub struct HttpResponse {
    pub status: HttpStatus,
    pub headers: HttpHeaders,
    pub body: Vec<u8>,
}

/// What a response holds, as plain values.
pub ghost struct ResponseView {
    pub status: HttpStatus,
    pub headers: Seq<Entry>,
    pub body: Seq<u8>,
}

impl View for HttpResponse {
    type V = ResponseView;

    open spec fn view(&self) -> ResponseView {
        ResponseView { status: self.status, headers: self.headers@, body: self.body@ }
    }
}

/// The response that every response starts from: status 200, the `Server`
/// header with the server's name, the `Date` header with the time of the
/// response, and no body.
pub open spec fn fresh_response(server_name: Seq<char>, now: u64) -> ResponseView {
    ResponseView {
        status: HttpStatus::Okay,
        headers: seq![("Server"@, server_name), ("Date"@, http_date_text(now))],
        body: Seq::<u8>::empty(),
    }
}

/// The serialized head of a response.
///
/// A response with status 200 has the status line, its headers in their
/// order, and an empty line. Any other response has the status line with the
/// reason phrase, and a line that holds one space.
pub open spec fn head_text(r: ResponseView) -> Seq<char> {
    if r.status != HttpStatus::Okay {
        "HTTP/1.1 "@ + decimal_text(r.status.code_spec() as nat) + " "@ + reason_phrase(r.status)
            + "\r\n \r\n"@
    } else {
        "HTTP/1.1 "@ + decimal_text(r.status.code_spec() as nat) + " OK\r\n"@ + header_lines(
            r.headers,
        ) + "\r\n"@
    }
}

impl HttpResponse {
    /// A response with the headers that every response has: `Server`, from
    /// the configuration, and `Date`, for the time `now` given in seconds
    /// since the start of 1970.
    pub fn new(config: &ServerConfig, now: u64) -> (res: HttpResponse)
        requires
            now < HTTP_DATE_END,
        ensures
            res@ == fresh_response(config.server_name@, now),
            res.headers.wf(),
    {
        let mut res = HttpResponse {
            status: HttpStatus::Okay,
            headers: HttpHeaders::new(),
            body: Vec::new(),
        };
        res.set_header(ResponseHeader::Server, config.server_name.as_str());
        let date = fmt_http_date(now);
        res.set_header(ResponseHeader::Date, date.as_str());
        proof {
            reveal_strlit("Server");
            reveal_strlit("Date");
            let empty = Seq::<Entry>::empty();
            let one = upsert(empty, "Server"@, config.server_name@);
            assert(one =~= seq![("Server"@, config.server_name@)]);
            assert("Server"@ != "Date"@) by {
                assert("Server"@.len() == 6);
                assert("Date"@.len() == 4);
            }
            lemma_name_index_is(one, "Date"@, 1);
            assert(res@.headers =~= fresh_response(config.server_name@, now).headers);
        }
        res
    }

    /// Sets one of the headers of `ResponseHeader` to `value`; the value is
    /// stored as it is given. Everything else in the response stays.
    pub fn set_header(&mut self, h: ResponseHeader, value: &str)
        ensures
            final(self)@ == (ResponseView {
                headers: upsert(old(self)@.headers, h.name(), value@),
                ..old(self)@
            }),
            old(self).headers.wf() ==> final(self).headers.wf(),
    {
        let name = match h {
            ResponseHeader::ContentType => "Content-Type",
            ResponseHeader::ContentLength => "Content-Length",
            ResponseHeader::ContentEncoding => "Content-Encoding",
            ResponseHeader::Connection => "Connection",
            ResponseHeader::Date => "Date",
            ResponseHeader::Server => "Server",
        };
        self.headers.set_raw(name, value);
    }

    /// The serialized head of the response: the status line and, for a
    /// response with status 200, its headers.
    pub fn build_headers(&self) -> (s: String)
        ensures
            s@ == head_text(self@),
    {
        let mut out = String::from_str("HTTP/1.1 ");
        let code = decimal_string(self.status.code() as usize);
        out.append(code.as_str());
        match self.status {
            HttpStatus::Okay => {
                out.append(" OK\r\n");
                let lines = self.headers.stringify();
                out.append(lines.as_str());
                out.append("\r\n");
            },
            _ => {
                out.append(" ");
                out.append(error_code_stringify(self.status));
                out.append("\r\n \r\n");
            },
        }
        out
    }
}

} // verus!
