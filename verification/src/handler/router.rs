//! Which response a request gets.

use crate::bytes::bytes_equal;
use crate::config::ServerConfig;
use crate::handler::responses::{any_error, error_response, page, welcome, welcome_markup};
use crate::handler::static_files::{serve, served, FileRead};
use crate::http::request::{HttpRequest, RequestView};
use crate::http::response::{HttpResponse, ResponseView, HTTP_DATE_END};
use crate::http::status::HttpStatus;
use crate::http::HttpMethod;
use vstd::prelude::*;
use vstd::slice::slice_subrange;
use vstd::utf8::encode_utf8;

verus! {

/// Where a request leads.
#[derive(Debug, Clone, Copy, PartialEq, Eq, Structural)]
pub enum Route {
    /// The welcome page.
    Welcome,
    /// A file below the static files root.
    StaticFile,
    /// Nothing: there is no such resource.
    NotFound,
    /// Nothing: the method is not served.
    MethodNotAllowed,
}

/// The route of a request with the given method and target. Only `GET` is
/// served: the target `/` is the welcome page, a target that starts with
/// `/static/` is a file, and any other target does not exist.
pub open spec fn route_of(method: HttpMethod, uri: Seq<char>) -> Route {
    let target = encode_utf8(uri);
    let prefix = encode_utf8("/static/"@);
    if method != HttpMethod::Get {
        Route::MethodNotAllowed
    } else if target == encode_utf8("/"@) {
        Route::Welcome
    } else if target.len() >= prefix.len() && target.take(prefix.len() as int) == prefix {
        Route::StaticFile
    } else {
        Route::NotFound
    }
}

/// Decides where a request leads. A caller that serves files reads the
/// file only when the route is `StaticFile`.
pub fn resolve(req: &HttpRequest) -> (r: Route)
    ensures
        r == route_of(req@.method, req@.uri),
{
    match req.method {
        HttpMethod::Get => {},
        _ => {
            return Route::MethodNotAllowed;
        },
    }
    let target = req.uri.as_str().as_bytes();
    let prefix = "/static/".as_bytes();
    if bytes_equal(target, "/".as_bytes()) {
        Route::Welcome
    } else if target.len() >= prefix.len() && bytes_equal(
        slice_subrange(target, 0, prefix.len()),
        prefix,
    ) {
        Route::StaticFile
    } else {
        Route::NotFound
    }
}

/// The response to a request, given how reading the file that it names
/// ended. What `file` holds matters for the route `StaticFile` only.
pub open spec fn routed(
    r: RequestView,
    server_name: Seq<char>,
    static_files_root: Seq<char>,
    now: u64,
    file: FileRead,
) -> ResponseView {
    match route_of(r.method, r.uri) {
        Route::Welcome => page(server_name, now, HttpStatus::Okay, welcome_markup(server_name)),
        Route::StaticFile => served(server_name, now, static_files_root + r.uri, file),
        Route::NotFound => error_response(server_name, now, HttpStatus::NotFound),
        Route::MethodNotAllowed => error_response(server_name, now, HttpStatus::MethodNotAllowed),
    }
}

/// Builds the response to a request. `file` is how reading the file that
/// the request names ended; it is looked at only when the request leads to
/// a static file.
pub fn route(req: &HttpRequest, config: &ServerConfig, now: u64, file: FileRead) -> (res:
    HttpResponse)
    requires
        now < HTTP_DATE_END,
    ensures
        res@ == routed(req@, config.server_name@, config.static_files_root@, now, file),
        res.headers.wf(),
{
    match resolve(req) {
        Route::Welcome => welcome(config, now),
        Route::StaticFile => serve(req.uri.as_str(), config, now, file),
        Route::NotFound => any_error(config, now, HttpStatus::NotFound),
        Route::MethodNotAllowed => any_error(config, now, HttpStatus::MethodNotAllowed),
    }
}

} // verus!
