//! The request model that the reader fills in stage by stage.

use crate::http::headers::{upsert, Entry, HttpHeaders};
use crate::http::HttpMethod;
use vstd::prelude::*;

verus! {

/// The text `Host`.
pub open spec fn host_name() -> Seq<char> {
    seq!['H', 'o', 's', 't']
}

/// The text `Content-Length`.
pub open spec fn content_length_name() -> Seq<char> {
    seq!['C', 'o', 'n', 't', 'e', 'n', 't', '-', 'L', 'e', 'n', 'g', 't', 'h']
}

/// The text `Content-Type`.
pub open spec fn content_type_name() -> Seq<char> {
    seq!['C', 'o', 'n', 't', 'e', 'n', 't', '-', 'T', 'y', 'p', 'e']
}

/// The text `Accept-Encoding`.
pub open spec fn accept_encoding_name() -> Seq<char> {
    seq!['A', 'c', 'c', 'e', 'p', 't', '-', 'E', 'n', 'c', 'o', 'd', 'i', 'n', 'g']
}

/// The request headers that can be set by kind rather than by raw name.
#[derive(Debug, Clone, Copy, PartialEq, Eq, Structural)]
pub enum RequestHeader {
    Host,
    ContentLength,
    ContentType,
}

impl RequestHeader {
    /// The name under which the header is stored.
    pub open spec fn name(self) -> Seq<char> {
        match self {
            RequestHeader::Host => host_name(),
            RequestHeader::ContentLength => content_length_name(),
            RequestHeader::ContentType => content_type_name(),
        }
    }
}

/// A request as it is being read, and once it is complete.
pub struct HttpRequest {
    pub method: HttpMethod,
    pub uri: String,
    pub http_version: (u8, u8),
    pub headers: HttpHeaders,
    pub body: Vec<u8>,
}

/// What a request holds, as plain values.
pub ghost struct RequestView {
    pub method: HttpMethod,
    pub uri: Seq<char>,
    pub http_version: (u8, u8),
    pub headers: Seq<Entry>,
    pub body: Seq<u8>,
}

impl View for HttpRequest {
    type V = RequestView;

    open spec fn view(&self) -> RequestView {
        RequestView {
            method: self.method,
            uri: self.uri@,
            http_version: self.http_version,
            headers: self.headers@,
            body: self.body@,
        }
    }
}

/// The request before anything was read: no method, an empty target,
/// version (0, 0), no headers, no body.
pub open spec fn empty_request() -> RequestView {
    RequestView {
        method: HttpMethod::Unknown,
        uri: Seq::<char>::empty(),
        http_version: (0u8, 0u8),
        headers: Seq::<Entry>::empty(),
        body: Seq::<u8>::empty(),
    }
}

impl HttpRequest {
    /// An empty request.
    pub fn new() -> (req: HttpRequest)
        ensures
            req@ == empty_request(),
            req.headers.wf(),
    {
        HttpRequest {
            method: HttpMethod::Unknown,
            uri: String::new(),
            http_version: (0, 0),
            headers: HttpHeaders::new(),
            body: Vec::new(),
        }
    }

    /// Sets one of the headers of `RequestHeader` to `value`; the value is
    /// stored as it is given. Everything else in the request stays.
    pub fn set_header(&mut self, h: RequestHeader, value: &str)
        ensures
            final(self)@ == (RequestView {
                headers: upsert(old(self)@.headers, h.name(), value@),
                ..old(self)@
            }),
            old(self).headers.wf() ==> final(self).headers.wf(),
    {
        proof {
            reveal_strlit("Content-Length");
            reveal_strlit("Content-Type");
            reveal_strlit("Host");
            assert("Content-Length"@ =~= content_length_name());
            assert("Content-Type"@ =~= content_type_name());
            assert("Host"@ =~= host_name());
        }
        let name = match h {
            RequestHeader::ContentLength => "Content-Length",
            RequestHeader::ContentType => "Content-Type",
            RequestHeader::Host => "Host",
        };
        self.headers.set_raw(name, value);
    }
}

} // verus!
