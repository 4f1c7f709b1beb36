//! The responses that the server builds itself: the welcome page and the
//! error pages.

use crate::config::ServerConfig;
use crate::decimal::{decimal_string, decimal_text};
use crate::http::headers::upsert;
use crate::http::response::{
    fresh_response, HttpResponse, ResponseHeader, ResponseView, HTTP_DATE_END,
};
use crate::http::status::HttpStatus;
use vstd::prelude::*;
use vstd::string::{StrSliceExecFns, StringExecFns};
use vstd::utf8::encode_utf8;

verus! {

/// An HTML page as a response: the page is the body, and the headers
/// `Content-Length` and `Content-Type` describe it.
pub open spec fn page(server_name: Seq<char>, now: u64, status: HttpStatus, markup: Seq<char>)
    -> ResponseView {
    let fresh = fresh_response(server_name, now);
    ResponseView {
        status,
        headers: upsert(
            upsert(
                fresh.headers,
                "Content-Length"@,
                decimal_text(encode_utf8(markup).len()),
            ),
            "Content-Type"@,
            "text/html"@,
        ),
        body: encode_utf8(markup),
    }
}

/// A response without body that carries nothing but a status.
pub open spec fn bare(server_name: Seq<char>, now: u64, status: HttpStatus) -> ResponseView {
    ResponseView { status, ..fresh_response(server_name, now) }
}

/// Builds an HTML page response.
fn page_response(config: &ServerConfig, now: u64, status: HttpStatus, markup: &str) -> (res:
    HttpResponse)
    requires
        now < HTTP_DATE_END,
    ensures
        res@ == page(config.server_name@, now, status, markup@),
        res.headers.wf(),
{
    let mut res = HttpResponse::new(config, now);
    res.status = status;
    let body = markup.as_bytes_vec();
    let length = decimal_string(body.len());
    res.set_header(ResponseHeader::ContentLength, length.as_str());
    res.set_header(ResponseHeader::ContentType, "text/html");
    res.body = body;
    res
}

/// The markup of the welcome page.
pub open spec fn welcome_markup(server_name: Seq<char>) -> Seq<char> {
    "<h1>Welcome to "@ + server_name + "!</h1>"@
}

/// The welcome page, which greets with the server's name.
pub fn welcome(config: &ServerConfig, now: u64) -> (res: HttpResponse)
    requires
        now < HTTP_DATE_END,
    ensures
        res@ == page(
            config.server_name@,
            now,
            HttpStatus::Okay,
            welcome_markup(config.server_name@),
        ),
        res.headers.wf(),
{
    let mut markup = String::from_str("<h1>Welcome to ");
    markup.append(config.server_name.as_str());
    markup.append("!</h1>");
    page_response(config, now, HttpStatus::Okay, markup.as_str())
}

/// The page for status 403.
pub fn forbidden(config: &ServerConfig, now: u64) -> (res: HttpResponse)
    requires
        now < HTTP_DATE_END,
    ensures
        res@ == page(config.server_name@, now, HttpStatus::Forbidden, "<h1>403 Forbidden</h1>"@),
        res.headers.wf(),
{
    page_response(config, now, HttpStatus::Forbidden, "<h1>403 Forbidden</h1>")
}

/// The page for status 404.
pub fn not_found(config: &ServerConfig, now: u64) -> (res: HttpResponse)
    requires
        now < HTTP_DATE_END,
    ensures
        res@ == page(config.server_name@, now, HttpStatus::NotFound, "<h1>404 Not Found</h1>"@),
        res.headers.wf(),
{
    page_response(config, now, HttpStatus::NotFound, "<h1>404 Not Found</h1>")
}

/// The page for status 500.
pub fn internal_server_error(config: &ServerConfig, now: u64) -> (res: HttpResponse)
    requires
        now < HTTP_DATE_END,
    ensures
        res@ == page(
            config.server_name@,
            now,
            HttpStatus::InternalServerError,
            "<h1>500 Internal Server Error</h1>"@,
        ),
        res.headers.wf(),
{
    page_response(
        config,
        now,
        HttpStatus::InternalServerError,
        "<h1>500 Internal Server Error</h1>",
    )
}

/// The response that reports a status.
///
/// The statuses 403, 404 and 500 have a page of their own. Status 400 is
/// answered with the page of 404. Any other status is reported by a
/// response without body.
pub open spec fn error_response(server_name: Seq<char>, now: u64, err: HttpStatus)
    -> ResponseView {
    match err {
        HttpStatus::BadRequest => page(
            server_name,
            now,
            HttpStatus::NotFound,
            "<h1>404 Not Found</h1>"@,
        ),
        HttpStatus::Forbidden => page(
            server_name,
            now,
            HttpStatus::Forbidden,
            "<h1>403 Forbidden</h1>"@,
        ),
        HttpStatus::NotFound => page(
            server_name,
            now,
            HttpStatus::NotFound,
            "<h1>404 Not Found</h1>"@,
        ),
        HttpStatus::InternalServerError => page(
            server_name,
            now,
            HttpStatus::InternalServerError,
            "<h1>500 Internal Server Error</h1>"@,
        ),
        _ => bare(server_name, now, err),
    }
}

/// The response that reports the status `err`.
pub fn any_error(config: &ServerConfig, now: u64, err: HttpStatus) -> (res: HttpResponse)
    requires
        now < HTTP_DATE_END,
    ensures
        res@ == error_response(config.server_name@, now, err),
        res.headers.wf(),
{
    match err {
        HttpStatus::BadRequest => {
            return not_found(config, now);
        },
        HttpStatus::Forbidden => {
            return forbidden(config, now);
        },
        HttpStatus::NotFound => {
            return not_found(config, now);
        },
        HttpStatus::InternalServerError => {
            return internal_server_error(config, now);
        },
        _ => {},
    }
    let mut res = HttpResponse::new(config, now);
    res.status = err;
    res
}

} // verus!
