use rustynet::config::ServerConfig;
use rustynet::decimal::{decimal_string, read_decimal};
use rustynet::http::headers::HttpHeaders;
use rustynet::http::request::{HttpRequest, RequestHeader};
use rustynet::http::response::{error_code_stringify, HttpResponse, ResponseHeader};
use rustynet::http::status::HttpStatus;
use rustynet::http::{HttpMethod, HttpVersion};

#[test]
fn default_configuration() {
    let cfg = ServerConfig::default();
    assert_eq!(cfg.address, "127.0.0.1");
    assert_eq!(cfg.port, 8080);
    assert_eq!(cfg.buffer_size, 4096);
    assert_eq!(cfg.http_version, HttpVersion::V1_1);
    assert_eq!(cfg.max_uri_size, 1024);
    assert_eq!(cfg.max_request_line_size, 1043);
    assert_eq!(cfg.max_header_size, 8192);
    assert_eq!(cfg.max_body_size, 1048576);
    assert_eq!(cfg.read_timeout_ms, 5000);
    assert_eq!(cfg.write_timeout_ms, 5000);
    assert_eq!(cfg.static_files_root, "./static");
    assert_eq!(cfg.server_name, "rustynet/0.1");
}

#[test]
fn headers_keep_their_order() {
    let mut headers = HttpHeaders::new();
    assert_eq!(headers.stringify(), "");
    assert!(headers.get("A").is_none());
    headers.set_raw("B", "1");
    headers.set_raw("A", "2");
    headers.set_raw("C", "3");
    assert_eq!(headers.stringify(), "B: 1\r\nA: 2\r\nC: 3\r\n");
    headers.set_raw("A", "changed");
    assert_eq!(headers.stringify(), "B: 1\r\nA: changed\r\nC: 3\r\n");
    assert_eq!(headers.get("A").unwrap(), "changed");
    assert_eq!(headers.get("B").unwrap(), "1");
    assert!(headers.get("a").is_none());
    assert!(headers.get("").is_none());
    headers.set_raw("", "");
    assert_eq!(headers.stringify(), "B: 1\r\nA: changed\r\nC: 3\r\n: \r\n");
    assert_eq!(headers.get("").unwrap(), "");
}

#[test]
fn new_request_is_empty() {
    let req = HttpRequest::new();
    assert_eq!(req.method, HttpMethod::Unknown);
    assert_eq!(req.uri, "");
    assert_eq!(req.http_version, (0, 0));
    assert_eq!(req.headers.stringify(), "");
    assert!(req.body.is_empty());
}

#[test]
fn request_headers_by_kind() {
    let mut req = HttpRequest::new();
    req.set_header(RequestHeader::ContentType, "text/plain");
    req.set_header(RequestHeader::Host, "example.com");
    req.set_header(RequestHeader::ContentLength, "12");
    req.set_header(RequestHeader::ContentType, "text/html");
    assert_eq!(
        req.headers.stringify(),
        "Content-Type: text/html\r\nHost: example.com\r\nContent-Length: 12\r\n"
    );
    assert_eq!(req.method, HttpMethod::Unknown);
}

#[test]
fn new_response_has_server_and_date() {
    let cfg = ServerConfig::default();
    let res = HttpResponse::new(&cfg, 784111777);
    assert_eq!(res.status, HttpStatus::Okay);
    assert!(res.body.is_empty());
    assert_eq!(
        res.headers.stringify(),
        "Server: rustynet/0.1\r\nDate: Sun, 06 Nov 1994 08:49:37 GMT\r\n"
    );
    let res = HttpResponse::new(&cfg, 0);
    assert_eq!(res.headers.get("Date").unwrap(), "Thu, 01 Jan 1970 00:00:00 GMT");
    let res = HttpResponse::new(&cfg, 253402300799);
    assert_eq!(res.headers.get("Date").unwrap(), "Fri, 31 Dec 9999 23:59:59 GMT");
}

#[test]
fn response_headers_by_kind() {
    let cfg = ServerConfig { server_name: "s".to_string(), ..Default::default() };
    let mut res = HttpResponse::new(&cfg, 1475419451);
    res.set_header(ResponseHeader::ContentLength, "1");
    res.set_header(ResponseHeader::ContentType, "a/b");
    res.set_header(ResponseHeader::ContentEncoding, "gzip");
    res.set_header(ResponseHeader::Connection, "close");
    res.set_header(ResponseHeader::Date, "today");
    res.set_header(ResponseHeader::Server, "t");
    assert_eq!(
        res.headers.stringify(),
        "Server: t\r\nDate: today\r\nContent-Length: 1\r\nContent-Type: a/b\r\nContent-Encoding: gzip\r\nConnection: close\r\n"
    );
}

#[test]
fn head_of_a_successful_response() {
    let cfg = ServerConfig::default();
    let mut res = HttpResponse::new(&cfg, 1475419451);
    res.set_header(ResponseHeader::ContentLength, "0");
    assert_eq!(
        res.build_headers(),
        "HTTP/1.1 200 OK\r\nServer: rustynet/0.1\r\nDate: Sun, 02 Oct 2016 14:44:11 GMT\r\nContent-Length: 0\r\n\r\n"
    );
}

#[test]
fn head_of_an_error_response() {
    let cfg = ServerConfig::default();
    let mut res = HttpResponse::new(&cfg, 1475419451);
    res.status = HttpStatus::NotFound;
    assert_eq!(res.build_headers(), "HTTP/1.1 404 Not Found\r\n \r\n");
    res.status = HttpStatus::LengthRequired;
    assert_eq!(res.build_headers(), "HTTP/1.1 411 Content-Length field required\r\n \r\n");
    res.status = HttpStatus::HttpVersionNotSupported;
    assert_eq!(res.build_headers(), "HTTP/1.1 505 HTTP Version Not Supported\r\n \r\n");
}

#[test]
fn reason_phrases() {
    assert_eq!(error_code_stringify(HttpStatus::BadRequest), "Bad Request");
    assert_eq!(error_code_stringify(HttpStatus::Forbidden), "Forbidden");
    assert_eq!(error_code_stringify(HttpStatus::NotFound), "Not Found");
    assert_eq!(error_code_stringify(HttpStatus::MethodNotAllowed), "Method Not Allowed");
    assert_eq!(
        error_code_stringify(HttpStatus::LengthRequired),
        "Content-Length field required"
    );
    assert_eq!(error_code_stringify(HttpStatus::PayloadTooLarge), "Payload Too Large");
    assert_eq!(error_code_stringify(HttpStatus::UriTooLong), "URI Too Long");
    assert_eq!(
        error_code_stringify(HttpStatus::InternalServerError),
        "Internal Server Error"
    );
    assert_eq!(
        error_code_stringify(HttpStatus::HttpVersionNotSupported),
        "HTTP Version Not Supported"
    );
    assert_eq!(error_code_stringify(HttpStatus::Okay), "");
}

#[test]
fn numbers_as_text() {
    assert_eq!(decimal_string(0), "0");
    assert_eq!(decimal_string(7), "7");
    assert_eq!(decimal_string(10), "10");
    assert_eq!(decimal_string(1048576), "1048576");
    assert_eq!(decimal_string(usize::MAX), usize::MAX.to_string());
}

#[test]
fn numbers_from_text() {
    assert_eq!(read_decimal(b"0"), Some(0));
    assert_eq!(read_decimal(b"42"), Some(42));
    assert_eq!(read_decimal(b"+42"), Some(42));
    assert_eq!(read_decimal(b"0042"), Some(42));
    assert_eq!(read_decimal(usize::MAX.to_string().as_bytes()), Some(usize::MAX));
    assert_eq!(read_decimal(b"18446744073709551616"), None);
    assert_eq!(read_decimal(b"184467440737095516150"), None);
    assert_eq!(read_decimal(b""), None);
    assert_eq!(read_decimal(b"+"), None);
    assert_eq!(read_decimal(b"-1"), None);
    assert_eq!(read_decimal(b"++1"), None);
    assert_eq!(read_decimal(b"1+"), None);
    assert_eq!(read_decimal(b" 1"), None);
    assert_eq!(read_decimal(b"1 "), None);
    assert_eq!(read_decimal(b"12a"), None);
    assert_eq!(read_decimal("\u{0661}".as_bytes()), None);
}

#[test]
fn numbers_round_trip() {
    for n in [0usize, 1, 9, 10, 99, 100, 4096, 65535, 1 << 40, usize::MAX - 1, usize::MAX] {
        assert_eq!(read_decimal(decimal_string(n).as_bytes()), Some(n));
    }
}
