use rustynet::bytes::{bytes_equal, equal_ignoring_case, find_in, position_of, tchar, trim_bounds};
use rustynet::http::grammar::{read_request_line, read_version};
use rustynet::http::parser::{Parser, ParserError};
use rustynet::http::{method_from_bytes, HttpMethod};

#[test]
fn find_in_bytes() {
    assert_eq!(find_in(b"hello", b"l"), Some(2));
    assert_eq!(find_in(b"hello", b"lo"), Some(3));
    assert_eq!(find_in(b"hello", b"hello"), Some(0));
    assert_eq!(find_in(b"hello", b"hello!"), None);
    assert_eq!(find_in(b"", b"a"), None);
    assert_eq!(find_in(b"aab", b"ab"), Some(1));
    assert_eq!(find_in(b"\r\r\n", b"\r\n"), Some(1));
    assert_eq!(find_in(b"\r", b"\r\n"), None);
}

#[test]
fn position_of_a_byte() {
    assert_eq!(position_of(b"a:b:c", 0, 5, b':'), 1);
    assert_eq!(position_of(b"a:b:c", 2, 5, b':'), 1);
    assert_eq!(position_of(b"a:b:c", 4, 5, b':'), 1);
    assert_eq!(position_of(b"a:b:c", 0, 1, b':'), 1);
    assert_eq!(position_of(b"abc", 0, 3, b':'), 3);
    assert_eq!(position_of(b"", 0, 0, b':'), 0);
}

#[test]
fn comparing_bytes() {
    assert!(bytes_equal(b"", b""));
    assert!(bytes_equal(b"abc", b"abc"));
    assert!(!bytes_equal(b"abc", b"abd"));
    assert!(!bytes_equal(b"abc", b"ab"));
    assert!(equal_ignoring_case(b"Content-Length", b"cONTENT-lENGTH"));
    assert!(equal_ignoring_case(b"", b""));
    assert!(!equal_ignoring_case(b"Host", b"Hos"));
    assert!(!equal_ignoring_case(b"Host", b"Hvst"));
    // '@' and '`' differ by the same bit as upper and lower case letters do.
    assert!(!equal_ignoring_case(b"@", b"`"));
    assert!(!equal_ignoring_case(b"[", b"{"));
}

#[test]
fn token_characters() {
    for b in b"!#$%&'*+-.^_`|~0123456789abcxyzABCXYZ" {
        assert!(tchar(*b));
    }
    for b in b" \t\"(),/:;<=>?@[\\]{}\x00\x7f\x80\xff" {
        assert!(!tchar(*b));
    }
}

#[test]
fn trimming() {
    assert_eq!(trim_bounds(b"  ab  ", 0, 6), (2, 4));
    assert_eq!(trim_bounds(b"  ab  ", 1, 5), (2, 4));
    assert_eq!(trim_bounds(b"ab", 0, 2), (0, 2));
    assert_eq!(trim_bounds(b"", 0, 0), (0, 0));
    assert_eq!(trim_bounds(b"   ", 0, 3), (3, 3));
    assert_eq!(trim_bounds(b"\t\n\x0b\x0c\r a", 0, 7), (6, 7));
    assert_eq!(trim_bounds(b"a \x1c", 0, 3), (0, 3));
    let wide = "\u{1680}\u{2000}\u{200a}\u{2028}\u{2029}\u{202f}\u{205f}\u{3000}x\u{85}\u{a0}";
    let (a, b) = trim_bounds(wide.as_bytes(), 0, wide.len());
    assert_eq!(&wide.as_bytes()[a..b], b"x");
    let kept = "\u{200b}x\u{feff}";
    assert_eq!(trim_bounds(kept.as_bytes(), 0, kept.len()), (0, kept.len()));
    for text in ["", " ", " a ", "\u{a0}b c\u{2003}", "\u{200b} x", "x\u{180e}"] {
        let (a, b) = trim_bounds(text.as_bytes(), 0, text.len());
        assert_eq!(&text.as_bytes()[a..b], text.trim().as_bytes());
    }
}

#[test]
fn method_tokens() {
    assert_eq!(method_from_bytes(b"GET"), HttpMethod::Get);
    assert_eq!(method_from_bytes(b"CONNECT"), HttpMethod::Connect);
    assert_eq!(method_from_bytes(b"OPTIONS"), HttpMethod::Options);
    assert_eq!(method_from_bytes(b"GET\0"), HttpMethod::Unknown);
    assert_eq!(method_from_bytes(b"\xff"), HttpMethod::Unknown);
}

#[test]
fn version_tokens() {
    assert_eq!(read_version(b"HTTP/1.1"), Some((1, 1)));
    assert_eq!(read_version(b"HTTP/0.9"), Some((0, 9)));
    assert_eq!(read_version(b"HTTP/1.1 "), None);
    assert_eq!(read_version(b"HTTP/1:1"), None);
    assert_eq!(read_version(b"HTTQ/1.1"), None);
    assert_eq!(read_version(b""), None);
}

#[test]
fn request_lines() {
    assert_eq!(
        read_request_line(b"DELETE /a%20b HTTP/1.0", 100),
        Ok((HttpMethod::Delete, "/a%20b".to_string(), (1, 0)))
    );
    assert_eq!(read_request_line(b"DELETE /a%20b HTTP/1.0", 5), Err(ParserError::TooLongUri));
    assert_eq!(
        read_request_line(b"DELETE /a%20b HTTP/1.0", 6),
        Ok((HttpMethod::Delete, "/a%20b".to_string(), (1, 0)))
    );
    // The target is checked before the version is.
    assert_eq!(read_request_line(b"GET /abc junk", 2), Err(ParserError::TooLongUri));
    assert_eq!(read_request_line(b"GET /abc junk", 4), Err(ParserError::Error));
    // The method is checked before the target is.
    assert_eq!(read_request_line(b"GOT /abc HTTP/1.1", 2), Err(ParserError::Error));
    assert_eq!(read_request_line(b"", 2), Err(ParserError::Error));
}

#[test]
fn field_names_and_values() {
    assert_eq!(Parser::get_header_name(b"X-Token_1"), Ok("X-Token_1"));
    assert_eq!(Parser::get_header_name(b"X Token"), Err(ParserError::Error));
    assert_eq!(Parser::get_header_value(b" v "), Ok("v"));
    assert_eq!(Parser::get_header_value("\u{a0}v\u{a0}".as_bytes()), Ok("v"));
    assert_eq!(Parser::get_header_value(b" \x80 "), Err(ParserError::Error));
}
