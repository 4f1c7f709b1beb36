//! Responses that serve files from the static files root.
//!
//! Reading the file is the caller's part. What was read, or why nothing
//! was, is handed in as a `FileRead`; what to answer is decided here.

use crate::bytes::bytes_equal;
use crate::config::ServerConfig;
use crate::decimal::{decimal_string, decimal_text};
use crate::handler::responses::{
    bare, forbidden, internal_server_error, not_found, page,
};
use crate::http::headers::upsert;
use crate::http::response::{
    fresh_response, HttpResponse, ResponseHeader, ResponseView, HTTP_DATE_END,
};
use crate::http::status::HttpStatus;
use vstd::prelude::*;
use vstd::slice::slice_subrange;
use vstd::string::{StringExecFns, StringSliceAdditionalSpecFns};
use vstd::utf8::encode_utf8;

verus! {

/// How the attempt to read a file ended.
#[derive(Debug)]
pub enum FileRead {
    /// The file was read; these are its bytes.
    Content(Vec<u8>),
    /// There is no such file.
    NotFound,
    /// The file may not be read.
    PermissionDenied,
    /// The file could not be opened for another reason.
    OpenFailed,
    /// The file was opened and reading it failed.
    ReadFailed,
}

/// The part of a request path that names a file below the root. For now it
/// is the path itself.
pub fn sanitize_path(path: &str) -> (r: &str)
    ensures
        r@ == path@,
{
    path
}

/// What follows the last dot of a path, or the whole path when it has no
/// dot.
pub open spec fn extension(path: Seq<u8>) -> Seq<u8>
    decreases path.len(),
{
    if path.len() == 0 {
        path
    } else if path.last() == 0x2E {
        Seq::<u8>::empty()
    } else {
        extension(path.drop_last()).push(path.last())
    }
}

/// The media type that goes with an extension.
pub open spec fn mime_of(ext: Seq<u8>) -> Seq<char> {
    if ext == encode_utf8("htm"@) || ext == encode_utf8("html"@) {
        "text/html"@
    } else if ext == encode_utf8("css"@) {
        "text/css"@
    } else if ext == encode_utf8("js"@) {
        "application/javascript"@
    } else if ext == encode_utf8("png"@) {
        "image/png"@
    } else if ext == encode_utf8("jpg"@) || ext == encode_utf8("jpeg"@) {
        "image/jpeg"@
    } else if ext == encode_utf8("gif"@) {
        "image/gif"@
    } else if ext == encode_utf8("svg"@) {
        "image/svg+xml"@
    } else if ext == encode_utf8("json"@) {
        "application/json"@
    } else if ext == encode_utf8("xml"@) {
        "application/xml"@
    } else if ext == encode_utf8("txt"@) {
        "text/plain"@
    } else if ext == encode_utf8("pdf"@) {
        "application/pdf"@
    } else {
        "application/octet-stream"@
    }
}

/// The media type of a file, guessed from the extension of its path.
pub fn guess_mime(path: &str) -> (r: &'static str)
    ensures
        r@ == mime_of(extension(path.spec_bytes())),
{
    let bytes = path.as_bytes();
    let n: usize = bytes.len();
    let mut start: usize = n;
    proof {
        assert(bytes@.take(n as int) =~= bytes@);
        assert(bytes@.subrange(n as int, n as int) =~= Seq::<u8>::empty());
        assert(extension(bytes@) + Seq::<u8>::empty() =~= extension(bytes@));
    }
    while start > 0 && bytes[start - 1] != 0x2E
        invariant
            start <= n == bytes@.len(),
            extension(bytes@) == extension(bytes@.take(start as int)) + bytes@.subrange(
                start as int,
                n as int,
            ),
        decreases start,
    {
        proof {
            let head = bytes@.take(start as int);
            assert(head.drop_last() =~= bytes@.take(start - 1));
            assert(extension(head.drop_last()).push(head.last()) + bytes@.subrange(
                start as int,
                n as int,
            ) =~= extension(head.drop_last()) + bytes@.subrange(start - 1, n as int));
        }
        start = start - 1;
    }
    proof {
        let head = bytes@.take(start as int);
        assert(extension(head) =~= Seq::<u8>::empty());
        assert(extension(bytes@) =~= bytes@.subrange(start as int, n as int));
    }
    let ext = slice_subrange(bytes, start, n);
    if bytes_equal(ext, "htm".as_bytes()) || bytes_equal(ext, "html".as_bytes()) {
        "text/html"
    } else if bytes_equal(ext, "css".as_bytes()) {
        "text/css"
    } else if bytes_equal(ext, "js".as_bytes()) {
        "application/javascript"
    } else if bytes_equal(ext, "png".as_bytes()) {
        "image/png"
    } else if bytes_equal(ext, "jpg".as_bytes()) || bytes_equal(ext, "jpeg".as_bytes()) {
        "image/jpeg"
    } else if bytes_equal(ext, "gif".as_bytes()) {
        "image/gif"
    } else if bytes_equal(ext, "svg".as_bytes()) {
        "image/svg+xml"
    } else if bytes_equal(ext, "json".as_bytes()) {
        "application/json"
    } else if bytes_equal(ext, "xml".as_bytes()) {
        "application/xml"
    } else if bytes_equal(ext, "txt".as_bytes()) {
        "text/plain"
    } else if bytes_equal(ext, "pdf".as_bytes()) {
        "application/pdf"
    } else {
        "application/octet-stream"
    }
}

/// The path of the file that a request path names: the static files root
/// followed by the request path.
pub fn static_file_path(path: &str, config: &ServerConfig) -> (full: String)
    ensures
        full@ == config.static_files_root@ + path@,
{
    let mut full = String::from_str(config.static_files_root.as_str());
    full.append(sanitize_path(path));
    full
}

/// The response that serves a file: its bytes are the body, and the
/// headers `Content-Length` and `Content-Type` describe it.
pub open spec fn file_response(server_name: Seq<char>, now: u64, full_path: Seq<char>, body: Seq<u8>)
    -> ResponseView {
    let fresh = fresh_response(server_name, now);
    ResponseView {
        status: HttpStatus::Okay,
        headers: upsert(
            upsert(fresh.headers, "Content-Length"@, decimal_text(body.len())),
            "Content-Type"@,
            mime_of(extension(encode_utf8(full_path))),
        ),
        body,
    }
}

/// The answer to a request for the file at `full_path`, given how reading
/// it ended.
pub open spec fn served(server_name: Seq<char>, now: u64, full_path: Seq<char>, read: FileRead)
    -> ResponseView {
    match read {
        FileRead::Content(body) => file_response(server_name, now, full_path, body@),
        FileRead::NotFound => page(
            server_name,
            now,
            HttpStatus::NotFound,
            "<h1>404 Not Found</h1>"@,
        ),
        FileRead::PermissionDenied => page(
            server_name,
            now,
            HttpStatus::Forbidden,
            "<h1>403 Forbidden</h1>"@,
        ),
        FileRead::OpenFailed => page(
            server_name,
            now,
            HttpStatus::InternalServerError,
            "<h1>500 Internal Server Error</h1>"@,
        ),
        FileRead::ReadFailed => bare(server_name, now, HttpStatus::InternalServerError),
    }
}

/// Answers a request for the static file that `path` names. `read` is how
/// reading the file at `static_file_path(path, config)` ended.
pub fn serve(path: &str, config: &ServerConfig, now: u64, read: FileRead) -> (res: HttpResponse)
    requires
        now < HTTP_DATE_END,
    ensures
        res@ == served(config.server_name@, now, config.static_files_root@ + path@, read),
        res.headers.wf(),
{
    let mut response = HttpResponse::new(config, now);
    let full_path = static_file_path(path, config);
    let body: Vec<u8> = match read {
        FileRead::Content(body) => body,
        FileRead::NotFound => {
            return not_found(config, now);
        },
        FileRead::PermissionDenied => {
            return forbidden(config, now);
        },
        FileRead::OpenFailed => {
            return internal_server_error(config, now);
        },
        FileRead::ReadFailed => {
            response.status = HttpStatus::InternalServerError;
            return response;
        },
    };
    let length = decimal_string(body.len());
    response.set_header(ResponseHeader::ContentLength, length.as_str());
    response.set_header(ResponseHeader::ContentType, guess_mime(full_path.as_str()));
    response.body = body;
    response
}

} // verus!
