use rustynet::config::ServerConfig;
use rustynet::http::parser::{Parser, ParserOk};
use rustynet::http::request::{HttpRequest, RequestHeader};
use rustynet::http::status::HttpStatus;
use rustynet::http::validator::{Validator, ValidatorError};
use rustynet::http::{http_method_from_str, HttpMethod, HttpVersion};

fn config() -> ServerConfig {
    ServerConfig {
        max_uri_size: 1024,
        max_header_size: 8192,
        max_body_size: 1024 * 1024,
        ..Default::default()
    }
}

fn request(method: HttpMethod, version: (u8, u8), content_length: Option<&str>) -> HttpRequest {
    let mut req = HttpRequest::new();
    req.method = method;
    req.http_version = version;
    if let Some(value) = content_length {
        req.set_header(RequestHeader::ContentLength, value);
    }
    req
}

#[test]
fn get_with_length_zero_passes() {
    let validator = Validator::new(&config());
    let req = request(HttpMethod::Get, (1, 1), Some("0"));
    assert_eq!(validator.validate_request(&req), Ok(()));
    let req = request(HttpMethod::Head, (1, 1), Some("0"));
    assert_eq!(validator.validate_request(&req), Ok(()));
    let req = request(HttpMethod::Get, (1, 1), None);
    assert_eq!(validator.validate_request(&req), Ok(()));
}

#[test]
fn get_with_length_one_is_not_allowed() {
    let validator = Validator::new(&config());
    let req = request(HttpMethod::Get, (1, 1), Some("1"));
    assert_eq!(validator.validate_request(&req), Err(ValidatorError::BodyNotAllowed));
    let req = request(HttpMethod::Head, (1, 0), Some("12"));
    assert_eq!(validator.validate_request(&req), Err(ValidatorError::BodyNotAllowed));
}

#[test]
fn post_without_length_is_refused() {
    let validator = Validator::new(&config());
    let req = request(HttpMethod::Post, (1, 1), None);
    assert_eq!(validator.validate_request(&req), Err(ValidatorError::MissingContentLength));
    let req = request(HttpMethod::Put, (1, 1), None);
    assert_eq!(validator.validate_request(&req), Err(ValidatorError::MissingContentLength));
}

#[test]
fn post_with_length_zero_is_refused() {
    let validator = Validator::new(&config());
    let req = request(HttpMethod::Post, (1, 1), Some("0"));
    assert_eq!(validator.validate_request(&req), Err(ValidatorError::MandatoryBody));
    let req = request(HttpMethod::Put, (1, 1), Some("+0"));
    assert_eq!(validator.validate_request(&req), Err(ValidatorError::MandatoryBody));
    let req = request(HttpMethod::Post, (1, 1), Some("1"));
    assert_eq!(validator.validate_request(&req), Ok(()));
}

#[test]
fn other_methods_are_free() {
    let validator = Validator::new(&config());
    for method in [
        HttpMethod::Delete,
        HttpMethod::Connect,
        HttpMethod::Options,
        HttpMethod::Trace,
        HttpMethod::Unknown,
    ] {
        for length in [None, Some("0"), Some("7")] {
            let req = request(method, (1, 1), length);
            assert_eq!(validator.validate_request(&req), Ok(()));
        }
    }
}

#[test]
fn versions_are_checked_first() {
    let validator = Validator::new(&config());
    for pair in [(0, 0), (1, 2), (0, 8), (2, 1), (9, 9), (3, 1)] {
        let req = request(HttpMethod::Post, pair, None);
        assert_eq!(validator.validate_request(&req), Err(ValidatorError::Error));
    }
    for pair in [(2, 0), (3, 0)] {
        let req = request(HttpMethod::Post, pair, Some("junk"));
        assert_eq!(
            validator.validate_request(&req),
            Err(ValidatorError::HttpVersionNotSupported)
        );
    }
    for pair in [(0, 9), (1, 0), (1, 1)] {
        let req = request(HttpMethod::Get, pair, None);
        assert_eq!(validator.validate_request(&req), Ok(()));
    }
    let modern = Validator::new(&ServerConfig { http_version: HttpVersion::V3_0, ..config() });
    let req = request(HttpMethod::Get, (3, 0), None);
    assert_eq!(modern.validate_request(&req), Ok(()));
    let ancient = Validator::new(&ServerConfig { http_version: HttpVersion::V0_9, ..config() });
    let req = request(HttpMethod::Get, (1, 0), None);
    assert_eq!(ancient.validate_request(&req), Err(ValidatorError::HttpVersionNotSupported));
    assert_eq!(ancient.validate_http_version((0, 9)), Ok(()));
    assert_eq!(ancient.validate_http_version((7, 7)), Err(ValidatorError::Error));
}

#[test]
fn malformed_length_comes_before_the_method_check() {
    let validator = Validator::new(&config());
    let req = request(HttpMethod::Get, (1, 1), Some("many"));
    assert_eq!(validator.validate_request(&req), Err(ValidatorError::MalformedHeaderField));
    let req = request(HttpMethod::Post, (1, 1), Some(""));
    assert_eq!(validator.validate_request(&req), Err(ValidatorError::MalformedHeaderField));
}

#[test]
fn declared_length_above_the_limit_is_too_large() {
    let validator = Validator::new(&config());
    let req = request(HttpMethod::Post, (1, 1), Some("1048576"));
    assert_eq!(validator.validate_request(&req), Ok(()));
    let req = request(HttpMethod::Post, (1, 1), Some("1048577"));
    assert_eq!(validator.validate_request(&req), Err(ValidatorError::PayloadTooLarge));
    let req = request(HttpMethod::Delete, (1, 1), Some("1048577"));
    assert_eq!(validator.validate_request(&req), Err(ValidatorError::PayloadTooLarge));
    // The method check comes first.
    let req = request(HttpMethod::Get, (1, 1), Some("1048577"));
    assert_eq!(validator.validate_request(&req), Err(ValidatorError::BodyNotAllowed));
}

#[test]
fn too_large_body_is_refused_at_the_checkpoint() {
    let cfg = ServerConfig { max_body_size: 4, ..config() };
    let validator = Validator::new(&cfg);
    let mut parser = Parser::new(&cfg);
    let mut req = HttpRequest::new();
    let r = parser.feed(b"POST /up HTTP/1.1\r\nContent-Length: 5\r\n\r\nabcde", &mut req);
    assert_eq!(r, Ok(ParserOk::HeadersDone));
    assert!(req.body.is_empty());
    assert_eq!(validator.validate_request(&req), Err(ValidatorError::PayloadTooLarge));
    assert!(req.body.is_empty());
    assert_eq!(parser.find_delimiter(b"abcde"), Some(0));
}

#[test]
fn method_check_alone() {
    assert_eq!(Validator::validate_http_method(Some(0), &HttpMethod::Get), Ok(()));
    assert_eq!(
        Validator::validate_http_method(Some(1), &HttpMethod::Get),
        Err(ValidatorError::BodyNotAllowed)
    );
    assert_eq!(
        Validator::validate_http_method(None, &HttpMethod::Put),
        Err(ValidatorError::MissingContentLength)
    );
    assert_eq!(
        Validator::validate_http_method(Some(0), &HttpMethod::Put),
        Err(ValidatorError::MandatoryBody)
    );
    assert_eq!(Validator::validate_http_method(Some(usize::MAX), &HttpMethod::Post), Ok(()));
    assert_eq!(Validator::validate_http_method(None, &HttpMethod::Options), Ok(()));
}

#[test]
fn validator_errors_map_to_statuses() {
    assert_eq!(ValidatorError::Error.into_http_status(), HttpStatus::BadRequest);
    assert_eq!(
        ValidatorError::HttpVersionNotSupported.into_http_status(),
        HttpStatus::HttpVersionNotSupported
    );
    assert_eq!(ValidatorError::PayloadTooLarge.into_http_status(), HttpStatus::PayloadTooLarge);
    assert_eq!(ValidatorError::MalformedHeaderField.into_http_status(), HttpStatus::BadRequest);
    assert_eq!(ValidatorError::MandatoryBody.into_http_status(), HttpStatus::BadRequest);
    assert_eq!(ValidatorError::BodyNotAllowed.into_http_status(), HttpStatus::BadRequest);
    assert_eq!(
        ValidatorError::MissingContentLength.into_http_status(),
        HttpStatus::LengthRequired
    );
}

#[test]
fn status_codes() {
    assert_eq!(HttpStatus::Okay.code(), 200);
    assert_eq!(HttpStatus::BadRequest.code(), 400);
    assert_eq!(HttpStatus::Forbidden.code(), 403);
    assert_eq!(HttpStatus::NotFound.code(), 404);
    assert_eq!(HttpStatus::MethodNotAllowed.code(), 405);
    assert_eq!(HttpStatus::LengthRequired.code(), 411);
    assert_eq!(HttpStatus::PayloadTooLarge.code(), 413);
    assert_eq!(HttpStatus::UriTooLong.code(), 414);
    assert_eq!(HttpStatus::InternalServerError.code(), 500);
    assert_eq!(HttpStatus::HttpVersionNotSupported.code(), 505);
}

#[test]
fn versions_and_their_pairs() {
    assert_eq!(HttpVersion::is_valid((0, 9)), Ok(HttpVersion::V0_9));
    assert_eq!(HttpVersion::is_valid((1, 0)), Ok(HttpVersion::V1_0));
    assert_eq!(HttpVersion::is_valid((1, 1)), Ok(HttpVersion::V1_1));
    assert_eq!(HttpVersion::is_valid((2, 0)), Ok(HttpVersion::V2_0));
    assert_eq!(HttpVersion::is_valid((3, 0)), Ok(HttpVersion::V3_0));
    assert_eq!(HttpVersion::is_valid((1, 2)), Err(()));
    assert_eq!(HttpVersion::is_valid((0, 0)), Err(()));
    assert_eq!(HttpVersion::is_valid((9, 0)), Err(()));
    assert_eq!(HttpVersion::V0_9.ordinal(), 0);
    assert_eq!(HttpVersion::V3_0.ordinal(), 4);
    assert!(HttpVersion::V1_0.ordinal() < HttpVersion::V1_1.ordinal());
}

#[test]
fn methods_from_text() {
    assert_eq!(http_method_from_str("GET"), HttpMethod::Get);
    assert_eq!(http_method_from_str("HEAD"), HttpMethod::Head);
    assert_eq!(http_method_from_str("POST"), HttpMethod::Post);
    assert_eq!(http_method_from_str("PUT"), HttpMethod::Put);
    assert_eq!(http_method_from_str("DELETE"), HttpMethod::Delete);
    assert_eq!(http_method_from_str("TRACE"), HttpMethod::Trace);
    assert_eq!(http_method_from_str("OPTIONS"), HttpMethod::Options);
    assert_eq!(http_method_from_str("CONNECT"), HttpMethod::Connect);
    assert_eq!(http_method_from_str("get"), HttpMethod::Unknown);
    assert_eq!(http_method_from_str(""), HttpMethod::Unknown);
    assert_eq!(http_method_from_str("GET "), HttpMethod::Unknown);
    assert_eq!(http_method_from_str("PATCH"), HttpMethod::Unknown);
}
