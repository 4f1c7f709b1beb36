//! Body compression for clients that accept an encoding.

use crate::decimal::{decimal_string, decimal_text};
use crate::http::headers::{lookup, upsert, Entry};
use crate::http::request::{accept_encoding_name, HttpRequest};
use crate::http::response::{HttpResponse, ResponseHeader, ResponseView};
use flate2::write::{DeflateEncoder, GzEncoder};
use flate2::Compression;
use std::io::Write;
use vstd::prelude::*;

verus! {

/// The error of `std::io`, which the encoders of `flate2` return. Nothing
/// is known here of what an error holds.
#[verifier::external_type_specification]
#[verifier::external_body]
pub struct ExIoError(std::io::Error);

/// The content codings that exist.
#[derive(Debug, Clone, Copy, PartialEq, Eq, Structural)]
pub enum CompressionAlgorithm {
    Gzip,
    Compress,
    Deflate,
    Br,
    Zstd,
    Dcb,
    Dcz,
    Identity,
}

impl CompressionAlgorithm {
    /// The name of the coding in a `Content-Encoding` header.
    pub open spec fn name(self) -> Seq<char> {
        match self {
            CompressionAlgorithm::Gzip => "gzip"@,
            CompressionAlgorithm::Compress => "compress"@,
            CompressionAlgorithm::Deflate => "deflate"@,
            CompressionAlgorithm::Br => "br"@,
            CompressionAlgorithm::Zstd => "zstd"@,
            CompressionAlgorithm::Dcb => "dcb"@,
            CompressionAlgorithm::Dcz => "dcz"@,
            CompressionAlgorithm::Identity => "identity"@,
        }
    }

    /// Whether the server can produce the coding.
    pub open spec fn supported(self) -> bool {
        self == CompressionAlgorithm::Gzip || self == CompressionAlgorithm::Deflate
    }

    /// The name of the coding in a `Content-Encoding` header.
    pub fn as_str(&self) -> (r: &'static str)
        ensures
            r@ == self.name(),
    {
        match self {
            CompressionAlgorithm::Gzip => "gzip",
            CompressionAlgorithm::Compress => "compress",
            CompressionAlgorithm::Deflate => "deflate",
            CompressionAlgorithm::Br => "br",
            CompressionAlgorithm::Zstd => "zstd",
            CompressionAlgorithm::Dcb => "dcb",
            CompressionAlgorithm::Dcz => "dcz",
            CompressionAlgorithm::Identity => "identity",
        }
    }
}

/// Why a body was not compressed.
#[derive(Debug)]
pub enum CompressionError {
    /// The encoder failed.
    Io(std::io::Error),
    /// The server cannot produce the coding.
    UnsupportedAlgorithm,
}

/// What the gzip encoder of `flate2` makes of `data` at its default
/// compression level: the gzip stream that it writes, or `None` where it
/// reports an error.
pub uninterp spec fn gzip_stream(data: Seq<u8>) -> Option<Seq<u8>>;

/// What the deflate encoder of `flate2` makes of `data` at its default
/// compression level: the raw deflate stream that it writes, or `None`
/// where it reports an error.
pub uninterp spec fn deflate_stream(data: Seq<u8>) -> Option<Seq<u8>>;

/// Compresses with `flate2::write::GzEncoder`: the encoder is created over
/// an empty vector at the default level, is given all of `data`, and is
/// finished. The encoder writes to memory and reads nothing but `data`, so
/// whether it succeeds, and the stream that it then gives, depend on `data`
/// alone. Nothing is claimed of when it succeeds.
#[verifier::external_body]
fn gzip(data: &[u8]) -> (r: Result<Vec<u8>, std::io::Error>)
    ensures
        match r {
            Ok(out) => gzip_stream(data@) == Some(out@),
            Err(_) => gzip_stream(data@) is None,
        },
{
    let mut encoder = GzEncoder::new(Vec::new(), Compression::default());
    encoder.write_all(data)?;
    encoder.finish()
}

/// Compresses with `flate2::write::DeflateEncoder`: the encoder is created
/// over an empty vector at the default level, is given all of `data`, and is
/// finished. The encoder writes to memory and reads nothing but `data`, so
/// whether it succeeds, and the stream that it then gives, depend on `data`
/// alone. Nothing is claimed of when it succeeds.
#[verifier::external_body]
fn deflate(data: &[u8]) -> (r: Result<Vec<u8>, std::io::Error>)
    ensures
        match r {
            Ok(out) => deflate_stream(data@) == Some(out@),
            Err(_) => deflate_stream(data@) is None,
        },
{
    let mut encoder = DeflateEncoder::new(Vec::new(), Compression::default());
    encoder.write_all(data)?;
    encoder.finish()
}

/// What the encoder for the coding `algo` makes of a body, for the codings
/// that the server can produce: the encoded body, or `None` where the
/// encoder reports an error.
pub open spec fn encoded(algo: CompressionAlgorithm, body: Seq<u8>) -> Option<Seq<u8>> {
    match algo {
        CompressionAlgorithm::Gzip => gzip_stream(body),
        _ => deflate_stream(body),
    }
}

/// The response after its body is replaced by `body` in the coding `algo`:
/// `Content-Encoding` names the coding and `Content-Length` is the length
/// of the new body.
pub open spec fn recoded(r: ResponseView, algo: CompressionAlgorithm, body: Seq<u8>)
    -> ResponseView {
    ResponseView {
        headers: upsert(
            upsert(r.headers, "Content-Encoding"@, algo.name()),
            "Content-Length"@,
            decimal_text(body.len()),
        ),
        body,
        ..r
    }
}

/// The response after the attempt to put its body into the coding `algo`:
/// the response with the encoded body where the encoder succeeds, and the
/// response as it was where the encoder reports an error.
pub open spec fn compressed(r: ResponseView, algo: CompressionAlgorithm) -> ResponseView {
    match encoded(algo, r.body) {
        Some(body) => recoded(r, algo, body),
        None => r,
    }
}

/// Puts the outcome of an encoder into the response. A body that was
/// encoded replaces the body and is described by the headers; a failure of
/// the encoder leaves the response as it was.
pub fn store_encoded(
    res: &mut HttpResponse,
    algo: CompressionAlgorithm,
    outcome: Result<Vec<u8>, std::io::Error>,
) -> (r: Result<(), CompressionError>)
    ensures
        match outcome {
            Ok(body) => r is Ok && final(res)@ == recoded(old(res)@, algo, body@),
            Err(e) => (r matches Err(CompressionError::Io(_))) && final(res)@ == old(res)@,
        },
        old(res).headers.wf() ==> final(res).headers.wf(),
{
    match outcome {
        Ok(body) => {
            res.body = body;
        },
        Err(e) => {
            return Err(CompressionError::Io(e));
        },
    }
    res.set_header(ResponseHeader::ContentEncoding, algo.as_str());
    let length = decimal_string(res.body.len());
    res.set_header(ResponseHeader::ContentLength, length.as_str());
    Ok(())
}

/// Compresses the body of a response with `algo`.
///
/// A coding that the server cannot produce is refused and the response
/// stays as it was. Otherwise the body is encoded; when the encoder fails
/// the response stays as it was too.
pub fn compress_body(res: &mut HttpResponse, algo: CompressionAlgorithm) -> (r: Result<
    (),
    CompressionError,
>)
    ensures
        !algo.supported() ==> (r matches Err(CompressionError::UnsupportedAlgorithm)) && final(res)@
            == old(res)@,
        algo.supported() ==> final(res)@ == compressed(old(res)@, algo),
        algo.supported() ==> (r is Ok <==> encoded(algo, old(res)@.body) is Some),
        algo.supported() ==> (r matches Err(e) ==> e is Io),
        old(res).headers.wf() ==> final(res).headers.wf(),
{
    let outcome = match algo {
        CompressionAlgorithm::Gzip => gzip(res.body.as_slice()),
        CompressionAlgorithm::Deflate => deflate(res.body.as_slice()),
        _ => {
            return Err(CompressionError::UnsupportedAlgorithm);
        },
    };
    store_encoded(res, algo, outcome)
}

/// The response as it goes out for a request with the given headers: put
/// into gzip when the request carries an `Accept-Encoding` header, whatever
/// the header says, and as it is when the request carries none.
pub open spec fn applied(headers: Seq<Entry>, r: ResponseView) -> ResponseView {
    if lookup(headers, accept_encoding_name()) is Some {
        compressed(r, CompressionAlgorithm::Gzip)
    } else {
        r
    }
}

/// Compresses the body of the response with gzip when the request carries
/// an `Accept-Encoding` header. When the encoder fails the response is sent
/// as it is.
pub fn apply(req: &HttpRequest, res: &mut HttpResponse)
    ensures
        final(res)@ == applied(req@.headers, old(res)@),
        old(res).headers.wf() ==> final(res).headers.wf(),
{
    proof {
        reveal_strlit("Accept-Encoding");
        assert("Accept-Encoding"@ =~= accept_encoding_name());
    }
    if req.headers.get("Accept-Encoding").is_none() {
        return;
    }
    // A failure of the encoder is not fatal: the response goes out as it is.
    match compress_body(res, CompressionAlgorithm::Gzip) {
        Ok(()) => {},
        Err(_) => {},
    }
}

} // verus!
