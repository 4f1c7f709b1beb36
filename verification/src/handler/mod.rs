//! What the server answers to a request, and to a request it refused.

use crate::config::ServerConfig;
use crate::handler::middleware::applied;
use crate::handler::responses::error_response;
use crate::handler::router::routed;
use crate::handler::static_files::FileRead;
use crate::http::request::HttpRequest;
use crate::http::response::{HttpResponse, HTTP_DATE_END};
use crate::http::status::HttpStatus;
use vstd::prelude::*;

pub mod middleware;
pub mod responses;
pub mod router;
pub mod static_files;

verus! {

/// Answers a complete request: the request is routed, and the response is
/// compressed with gzip when the request carries an `Accept-Encoding`
/// header; when the encoder fails the response is sent as it is. `file` is
/// how reading the file that the request names ended; it is looked at only
/// when the request leads to a static file.
pub fn handle_request(req: &HttpRequest, config: &ServerConfig, now: u64, file: FileRead) -> (res:
    HttpResponse)
    requires
        now < HTTP_DATE_END,
    ensures
        res@ == applied(
            req@.headers,
            routed(req@, config.server_name@, config.static_files_root@, now, file),
        ),
        res.headers.wf(),
{
    let mut res = router::route(req, config, now, file);
    middleware::apply(req, &mut res);
    res
}

/// Answers a request that was refused with the status `err`.
pub fn handle_error(config: &ServerConfig, now: u64, err: HttpStatus) -> (res: HttpResponse)
    requires
        now < HTTP_DATE_END,
    ensures
        res@ == error_response(config.server_name@, now, err),
        res.headers.wf(),
{
    responses::any_error(config, now, err)
}

} // verus!
