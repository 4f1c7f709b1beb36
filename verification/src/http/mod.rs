//! Protocol vocabulary shared by the reader, the validator and the responses.

use crate::bytes::bytes_equal;
use vstd::prelude::*;
use vstd::string::StringSliceAdditionalSpecFns;

pub mod fragments;
pub mod grammar;
pub mod headers;
pub mod parser;
pub mod request;
pub mod response;
pub mod round_trip;
pub mod status;
pub mod validator;

verus! {

/// The protocol versions that exist, in ascending order.
#[derive(Debug, Clone, Copy, PartialEq, Eq, Structural)]
pub enum HttpVersion {
    V0_9,
    V1_0,
    V1_1,
    V2_0,
    V3_0,
}

impl HttpVersion {
    /// The (major, minor) pair that names this version on the wire.
    pub open spec fn pair(self) -> (u8, u8) {
        match self {
            HttpVersion::V0_9 => (0u8, 9u8),
            HttpVersion::V1_0 => (1u8, 0u8),
            HttpVersion::V1_1 => (1u8, 1u8),
            HttpVersion::V2_0 => (2u8, 0u8),
            HttpVersion::V3_0 => (3u8, 0u8),
        }
    }

    /// Position in the ascending order of versions.
    pub open spec fn rank(self) -> nat {
        match self {
            HttpVersion::V0_9 => 0,
            HttpVersion::V1_0 => 1,
            HttpVersion::V1_1 => 2,
            HttpVersion::V2_0 => 3,
            HttpVersion::V3_0 => 4,
        }
    }

    /// The version named by a (major, minor) pair, if there is one.
    pub open spec fn of_pair(v: (u8, u8)) -> Option<HttpVersion> {
        if v == (0u8, 9u8) {
            Some(HttpVersion::V0_9)
        } else if v == (1u8, 0u8) {
            Some(HttpVersion::V1_0)
        } else if v == (1u8, 1u8) {
            Some(HttpVersion::V1_1)
        } else if v == (2u8, 0u8) {
            Some(HttpVersion::V2_0)
        } else if v == (3u8, 0u8) {
            Some(HttpVersion::V3_0)
        } else {
            None
        }
    }

    /// Checks whether a (major, minor) pair names an existing version.
    pub fn is_valid(v: (u8, u8)) -> (r: Result<HttpVersion, ()>)
        ensures
            r is Ok <==> Self::of_pair(v) is Some,
            r matches Ok(version) ==> Self::of_pair(v) == Some(version) && version.pair() == v,
    {
        match (v.0, v.1) {
            (0, 9) => Ok(HttpVersion::V0_9),
            (1, 0) => Ok(HttpVersion::V1_0),
            (1, 1) => Ok(HttpVersion::V1_1),
            (2, 0) => Ok(HttpVersion::V2_0),
            (3, 0) => Ok(HttpVersion::V3_0),
            _ => Err(()),
        }
    }

    /// Position in the ascending order of versions, as a machine integer.
    pub fn ordinal(&self) -> (r: u8)
        ensures
            r == self.rank(),
    {
        match self {
            HttpVersion::V0_9 => 0,
            HttpVersion::V1_0 => 1,
            HttpVersion::V1_1 => 2,
            HttpVersion::V2_0 => 3,
            HttpVersion::V3_0 => 4,
        }
    }
}

/// The request methods the server knows, and `Unknown` for any other token.
#[derive(Debug, Clone, Copy, PartialEq, Eq, Structural)]
pub enum HttpMethod {
    Get,
    Head,
    Post,
    Put,
    Delete,
    Connect,
    Options,
    Trace,
    Unknown,
}

/// The bytes of `GET`.
pub open spec fn get_token() -> Seq<u8> {
    seq![0x47u8, 0x45, 0x54]
}

/// The bytes of `HEAD`.
pub open spec fn head_token() -> Seq<u8> {
    seq![0x48u8, 0x45, 0x41, 0x44]
}

/// The bytes of `POST`.
pub open spec fn post_token() -> Seq<u8> {
    seq![0x50u8, 0x4F, 0x53, 0x54]
}

/// The bytes of `PUT`.
pub open spec fn put_token() -> Seq<u8> {
    seq![0x50u8, 0x55, 0x54]
}

/// The bytes of `DELETE`.
pub open spec fn delete_token() -> Seq<u8> {
    seq![0x44u8, 0x45, 0x4C, 0x45, 0x54, 0x45]
}

/// The bytes of `TRACE`.
pub open spec fn trace_token() -> Seq<u8> {
    seq![0x54u8, 0x52, 0x41, 0x43, 0x45]
}

/// The bytes of `OPTIONS`.
pub open spec fn options_token() -> Seq<u8> {
    seq![0x4Fu8, 0x50, 0x54, 0x49, 0x4F, 0x4E, 0x53]
}

/// The bytes of `CONNECT`.
pub open spec fn connect_token() -> Seq<u8> {
    seq![0x43u8, 0x4F, 0x4E, 0x4E, 0x45, 0x43, 0x54]
}

/// The method that a token names. The match is exact: case matters.
pub open spec fn method_of(token: Seq<u8>) -> HttpMethod {
    if token == get_token() {
        HttpMethod::Get
    } else if token == head_token() {
        HttpMethod::Head
    } else if token == post_token() {
        HttpMethod::Post
    } else if token == put_token() {
        HttpMethod::Put
    } else if token == delete_token() {
        HttpMethod::Delete
    } else if token == trace_token() {
        HttpMethod::Trace
    } else if token == options_token() {
        HttpMethod::Options
    } else if token == connect_token() {
        HttpMethod::Connect
    } else {
        HttpMethod::Unknown
    }
}

/// The method that a token of bytes names.
pub fn method_from_bytes(token: &[u8]) -> (m: HttpMethod)
    ensures
        m == method_of(token@),
{
    let get: [u8; 3] = [0x47, 0x45, 0x54];
    let head: [u8; 4] = [0x48, 0x45, 0x41, 0x44];
    let post: [u8; 4] = [0x50, 0x4F, 0x53, 0x54];
    let put: [u8; 3] = [0x50, 0x55, 0x54];
    let delete: [u8; 6] = [0x44, 0x45, 0x4C, 0x45, 0x54, 0x45];
    let trace: [u8; 5] = [0x54, 0x52, 0x41, 0x43, 0x45];
    let options: [u8; 7] = [0x4F, 0x50, 0x54, 0x49, 0x4F, 0x4E, 0x53];
    let connect: [u8; 7] = [0x43, 0x4F, 0x4E, 0x4E, 0x45, 0x43, 0x54];
    assert(get@ =~= get_token());
    assert(head@ =~= head_token());
    assert(post@ =~= post_token());
    assert(put@ =~= put_token());
    assert(delete@ =~= delete_token());
    assert(trace@ =~= trace_token());
    assert(options@ =~= options_token());
    assert(connect@ =~= connect_token());
    if bytes_equal(token, get.as_slice()) {
        HttpMethod::Get
    } else if bytes_equal(token, head.as_slice()) {
        HttpMethod::Head
    } else if bytes_equal(token, post.as_slice()) {
        HttpMethod::Post
    } else if bytes_equal(token, put.as_slice()) {
        HttpMethod::Put
    } else if bytes_equal(token, delete.as_slice()) {
        HttpMethod::Delete
    } else if bytes_equal(token, trace.as_slice()) {
        HttpMethod::Trace
    } else if bytes_equal(token, options.as_slice()) {
        HttpMethod::Options
    } else if bytes_equal(token, connect.as_slice()) {
        HttpMethod::Connect
    } else {
        HttpMethod::Unknown
    }
}

/// The method that a text names: one of the eight verbs in upper case, or
/// `Unknown`.
pub fn http_method_from_str(method: &str) -> (m: HttpMethod)
    ensures
        m == method_of(method.spec_bytes()),
{
    method_from_bytes(method.as_bytes())
}

} // verus!
