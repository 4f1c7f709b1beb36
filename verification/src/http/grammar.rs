//! The syntax of a request head, line by line: what a request line and a
//! header line must look like, and what each one means.

use crate::bytes::{
    all_tchars, bytes_equal, has_forbidden_control, index_of_byte, is_digit, position_of,
    trim_space, utf8_text,
};
use crate::http::parser::ParserError;
use crate::http::{method_from_bytes, method_of, HttpMethod};
use vstd::prelude::*;
use vstd::slice::slice_subrange;
use vstd::string::StringExecFns;
use vstd::string::StringSliceAdditionalSpecFns;
use vstd::utf8::{decode_utf8, encode_utf8_decode_utf8, valid_utf8};

verus! {

/// The line terminator, CR LF.
pub open spec fn crlf() -> Seq<u8> {
    seq![0x0Du8, 0x0Au8]
}

/// The bytes of `HTTP/`.
pub open spec fn version_prefix() -> Seq<u8> {
    seq![0x48u8, 0x54, 0x54, 0x50, 0x2F]
}

/// The version that a token names: `HTTP/`, one digit, a dot, one digit.
pub open spec fn version_of(token: Seq<u8>) -> Option<(u8, u8)> {
    if token.len() == 8 && token.take(5) == version_prefix() && is_digit(token[5]) && token[6]
        == 0x2E && is_digit(token[7]) {
        Some(((token[5] - 0x30) as u8, (token[7] - 0x30) as u8))
    } else {
        None
    }
}

/// What a request line says.
pub ghost struct RequestLine {
    pub method: HttpMethod,
    pub uri: Seq<char>,
    pub version: (u8, u8),
}

/// The meaning of a request line, given without its terminator.
///
/// The line must consist of exactly three tokens separated by single spaces.
/// The first must be one of the eight methods. The second, the target, must
/// be at most `max_uri_size` bytes long: a longer one is the one failure
/// reported as `TooLongUri`, and it is reported before the target is looked
/// into. The target must be well-formed UTF-8. The third token must be a
/// version.
pub open spec fn request_line(line: Seq<u8>, max_uri_size: usize) -> Result<
    RequestLine,
    ParserError,
> {
    let sp1 = index_of_byte(line, 0x20);
    let rest = line.skip(sp1 + 1);
    let sp2 = index_of_byte(rest, 0x20);
    let tail = rest.skip(sp2 + 1);
    if sp1 >= line.len() || sp2 >= rest.len() || index_of_byte(tail, 0x20) < tail.len() {
        Err(ParserError::Error)
    } else if method_of(line.take(sp1)) == HttpMethod::Unknown {
        Err(ParserError::Error)
    } else if rest.take(sp2).len() > max_uri_size {
        Err(ParserError::TooLongUri)
    } else if !valid_utf8(rest.take(sp2)) {
        Err(ParserError::Error)
    } else {
        match version_of(tail) {
            None => Err(ParserError::Error),
            Some(version) => Ok(
                RequestLine {
                    method: method_of(line.take(sp1)),
                    uri: decode_utf8(rest.take(sp2)),
                    version,
                },
            ),
        }
    }
}

/// Reads a version token.
pub fn read_version(token: &[u8]) -> (r: Option<(u8, u8)>)
    ensures
        r == version_of(token@),
{
    if token.len() != 8 {
        return None;
    }
    let prefix: [u8; 5] = [0x48, 0x54, 0x54, 0x50, 0x2F];
    assert(prefix@ =~= version_prefix());
    assert(token@.take(5) =~= token@.subrange(0, 5));
    if !bytes_equal(slice_subrange(token, 0, 5), prefix.as_slice()) {
        return None;
    }
    let major: u8 = token[5];
    let dot: u8 = token[6];
    let minor: u8 = token[7];
    if major < 0x30 || major > 0x39 || dot != 0x2E || minor < 0x30 || minor > 0x39 {
        return None;
    }
    Some((major - 0x30, minor - 0x30))
}

/// Reads a request line, given without its terminator.
pub fn read_request_line(line: &[u8], max_uri_size: usize) -> (r: Result<
    (HttpMethod, String, (u8, u8)),
    ParserError,
>)
    ensures
        match r {
            Ok((method, uri, version)) => request_line(line@, max_uri_size) == Ok::<
                RequestLine,
                ParserError,
            >(RequestLine { method, uri: uri@, version }),
            Err(e) => request_line(line@, max_uri_size) == Err::<RequestLine, ParserError>(e),
        },
{
    let n: usize = line.len();
    assert(line@.subrange(0, n as int) =~= line@);
    let sp1: usize = position_of(line, 0, n, 0x20);
    if sp1 >= n {
        return Err(ParserError::Error);
    }
    let ghost rest = line@.skip(sp1 + 1);
    assert(rest =~= line@.subrange(sp1 + 1, n as int));
    let sp2: usize = position_of(line, sp1 + 1, n, 0x20);
    if sp2 >= n - (sp1 + 1) {
        return Err(ParserError::Error);
    }
    let target_start: usize = sp1 + 1;
    let target_end: usize = target_start + sp2;
    let tail_start: usize = target_end + 1;
    let ghost tail = rest.skip(sp2 + 1);
    assert(tail =~= line@.subrange(tail_start as int, n as int));
    let sp3: usize = position_of(line, tail_start, n, 0x20);
    if sp3 < n - tail_start {
        return Err(ParserError::Error);
    }
    assert(line@.take(sp1 as int) =~= line@.subrange(0, sp1 as int));
    assert(rest.take(sp2 as int) =~= line@.subrange(target_start as int, target_end as int));
    let method = method_from_bytes(slice_subrange(line, 0, sp1));
    if let HttpMethod::Unknown = method {
        return Err(ParserError::Error);
    }
    if sp2 > max_uri_size {
        return Err(ParserError::TooLongUri);
    }
    let target = slice_subrange(line, target_start, target_end);
    let uri: &str = match utf8_text(target) {
        None => {
            return Err(ParserError::Error);
        },
        Some(text) => text,
    };
    proof {
        encode_utf8_decode_utf8(uri@);
    }
    match read_version(slice_subrange(line, tail_start, n)) {
        None => Err(ParserError::Error),
        Some(version) => Ok((method, String::from_str(uri), version)),
    }
}

/// The meaning of a header line, given without its terminator: the field
/// name and the field value.
///
/// The name is what precedes the first colon; it must not be empty and must
/// consist of token characters. The value is what follows the colon, without
/// the white space around it; it must hold no control byte other than
/// horizontal tab and must be well-formed UTF-8.
pub open spec fn header_field(line: Seq<u8>) -> Option<(Seq<u8>, Seq<u8>)> {
    let colon = index_of_byte(line, 0x3A);
    let name = line.take(colon);
    let raw = line.skip(colon + 1);
    if colon >= line.len() || !field_name_ok(name) || !field_value_ok(raw) {
        None
    } else {
        Some((name, trim_space(raw)))
    }
}

/// A field name is not empty and holds token characters only.
pub open spec fn field_name_ok(name: Seq<u8>) -> bool {
    name.len() > 0 && all_tchars(name)
}

/// A raw field value holds no control byte other than horizontal tab, and
/// what is left of it without the surrounding white space is well-formed
/// UTF-8.
pub open spec fn field_value_ok(raw: Seq<u8>) -> bool {
    !has_forbidden_control(raw) && valid_utf8(trim_space(raw))
}

} // verus!
