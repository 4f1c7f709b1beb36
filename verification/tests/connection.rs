use rustynet::config::ServerConfig;
use rustynet::http::parser::{Parser, ParserError};
use rustynet::http::request::HttpRequest;
use rustynet::http::status::HttpStatus;
use rustynet::http::validator::{Validator, ValidatorError};
use rustynet::http::HttpMethod;
use rustynet::net::{receive, Progress, ReadError};

fn config() -> ServerConfig {
    ServerConfig { max_body_size: 16, ..Default::default() }
}

#[test]
fn receive_reads_a_request_in_one_piece() {
    let cfg = config();
    let validator = Validator::new(&cfg);
    let mut parser = Parser::new(&cfg);
    let mut req = HttpRequest::new();
    let r = receive(
        &mut parser,
        &validator,
        &mut req,
        b"POST /p HTTP/1.1\r\nContent-Length: 3\r\n\r\nabc",
    );
    assert_eq!(r, Ok(Progress::Complete));
    assert_eq!(req.method, HttpMethod::Post);
    assert_eq!(req.body, b"abc");
}

#[test]
fn receive_asks_for_more() {
    let cfg = config();
    let validator = Validator::new(&cfg);
    let mut parser = Parser::new(&cfg);
    let mut req = HttpRequest::new();
    assert_eq!(receive(&mut parser, &validator, &mut req, b"POST /p HT"), Ok(Progress::NeedMore));
    assert_eq!(
        receive(&mut parser, &validator, &mut req, b"TP/1.1\r\nContent-Length: 3\r\n\r\na"),
        Ok(Progress::NeedMore)
    );
    assert_eq!(req.body, b"a");
    assert_eq!(receive(&mut parser, &validator, &mut req, b"b"), Ok(Progress::NeedMore));
    assert_eq!(receive(&mut parser, &validator, &mut req, b"c"), Ok(Progress::Complete));
    assert_eq!(req.body, b"abc");
}

#[test]
fn receive_validates_before_the_body() {
    let cfg = config();
    let validator = Validator::new(&cfg);
    let mut parser = Parser::new(&cfg);
    let mut req = HttpRequest::new();
    let r = receive(
        &mut parser,
        &validator,
        &mut req,
        b"POST /p HTTP/1.1\r\nContent-Length: 17\r\n\r\n0123456789abcdefg",
    );
    assert_eq!(r, Err(ReadError::Validator(ValidatorError::PayloadTooLarge)));
    assert!(req.body.is_empty());
    assert_eq!(parser.find_delimiter(b"0123456789abcdefg"), Some(0));

    let mut parser = Parser::new(&cfg);
    let mut req = HttpRequest::new();
    let r = receive(&mut parser, &validator, &mut req, b"GET / HTTP/2.0\r\n\r\n");
    assert_eq!(r, Err(ReadError::Validator(ValidatorError::HttpVersionNotSupported)));

    let mut parser = Parser::new(&cfg);
    let mut req = HttpRequest::new();
    let r = receive(&mut parser, &validator, &mut req, b"POST / HTTP/1.1\r\n\r\n");
    assert_eq!(r, Err(ReadError::Validator(ValidatorError::MissingContentLength)));
}

#[test]
fn receive_reports_syntax_failures() {
    let cfg = config();
    let validator = Validator::new(&cfg);
    let mut parser = Parser::new(&cfg);
    let mut req = HttpRequest::new();
    let r = receive(&mut parser, &validator, &mut req, b"FETCH / HTTP/1.1\r\n\r\n");
    assert_eq!(r, Err(ReadError::Parser(ParserError::Error)));
    let mut parser = Parser::new(&cfg);
    let r = receive(&mut parser, &validator, &mut req, &vec![b'x'; 5000]);
    assert_eq!(r, Err(ReadError::Parser(ParserError::BufferOverflow)));
}

#[test]
fn read_errors_map_to_statuses() {
    assert_eq!(
        ReadError::Parser(ParserError::TooLongUri).into_http_status(),
        HttpStatus::UriTooLong
    );
    assert_eq!(
        ReadError::Validator(ValidatorError::MissingContentLength).into_http_status(),
        HttpStatus::LengthRequired
    );
    assert_eq!(
        ReadError::Validator(ValidatorError::PayloadTooLarge).into_http_status().code(),
        413
    );
}
