//! What the reader makes of requests that are written by the rules.
//!
//! The theorems here start from the parts of a request, write them down as
//! bytes, and state what reading those bytes yields: that the limits on the
//! target and on the header section are exact, that a declared length
//! followed by as many bytes yields the body, and that a whole request is
//! read as it was written.

use crate::bytes::{
    find, is_digit, lemma_find_is, matches_at, is_tchar, lemma_ascii_is_utf8, lemma_find, lemma_index_of_byte_is,
    space_prefix_len, space_suffix_len, trim_end, trim_space, trim_start,
};
use crate::decimal::{
    decimal_text, lemma_decimal_round_trip, lemma_decimal_text_bytes, lemma_decimal_text_digits,
};
use crate::http::grammar::{
    crlf, field_name_ok, field_value_ok, header_field, request_line, version_of, version_prefix,
    RequestLine,
};
use crate::http::headers::{lemma_upsert, upsert, Entry};
use crate::http::parser::{
    body_step, declared_length, failed, feed_spec, header_line, headers_step,
    lemma_headers_step, names, request_line_step, run, store_field, Limits, ParserError, ParserOk, ParserState, ParserView, Step, PARSER_BUF_CAP,
};
use crate::http::fragments::{
    byte_by_byte, feed_all, feed_through, lemma_byte_by_byte, lemma_feed_through,
    line_below_limit, run_through,
};
use crate::http::request::{content_length_name, host_name, RequestView};
use crate::http::{
    connect_token, delete_token, get_token, head_token, method_of, options_token, post_token,
    put_token, trace_token, HttpMethod,
};
use vstd::prelude::*;
use vstd::utf8::{
    decode_utf8, encode_utf8, encode_utf8_decode_utf8, is_ascii_chars, is_ascii_chars_encode_utf8,
    valid_utf8,
};

verus! {

/// A request line made of a method, a target and a version.
pub open spec fn line_of(method: Seq<u8>, target: Seq<u8>, version: Seq<u8>) -> Seq<u8> {
    method + seq![0x20u8] + target + seq![0x20u8] + version
}

/// No byte of `s` is a space.
pub open spec fn no_space(s: Seq<u8>) -> bool {
    forall|i: int| 0 <= i < s.len() ==> #[trigger] s[i] != 0x20
}

/// The token of a known method consists of upper-case letters.
pub proof fn lemma_method_letters(method: Seq<u8>)
    requires
        method_of(method) != HttpMethod::Unknown,
    ensures
        no_space(method),
        method.len() > 0,
        forall|i: int| 0 <= i < method.len() ==> 0x41 <= #[trigger] method[i] <= 0x5A,
{
    if method == get_token() {
    } else if method == head_token() {
    } else if method == post_token() {
    } else if method == put_token() {
    } else if method == delete_token() {
    } else if method == trace_token() {
    } else if method == options_token() {
    } else if method == connect_token() {
    }
}

/// A version token holds neither a space nor a carriage return.
pub proof fn lemma_version_plain(version: Seq<u8>)
    requires
        version_of(version) is Some,
    ensures
        no_space(version),
        version.len() == 8,
        forall|i: int| 0 <= i < version.len() ==> #[trigger] version[i] != 0x0D,
{
    let prefix = version.take(5);
    assert forall|i: int| 0 <= i < version.len() implies #[trigger] version[i] != 0x20
        && version[i] != 0x0D by {
        if i < 5 {
            assert(prefix[i] == version[i]);
            assert(prefix == version_prefix());
        }
    }
}

/// The target limit is exact.
///
/// A request line with a known method, a target without spaces and a
/// version fails with `TooLongUri` when the target is longer than the limit,
/// if only by one byte. When the target is at most as long as the limit, a
/// target of exactly the limit included, and is well-formed UTF-8, the line
/// is read successfully.
pub proof fn lemma_target_limit(
    method: Seq<u8>,
    target: Seq<u8>,
    version: Seq<u8>,
    max_uri_size: usize,
)
    requires
        method_of(method) != HttpMethod::Unknown,
        no_space(target),
        version_of(version) is Some,
    ensures
        target.len() <= max_uri_size && valid_utf8(target) ==> request_line(
            line_of(method, target, version),
            max_uri_size,
        ) == Ok::<RequestLine, ParserError>(
            RequestLine {
                method: method_of(method),
                uri: decode_utf8(target),
                version: version_of(version)->0,
            },
        ),
        target.len() > max_uri_size ==> request_line(
            line_of(method, target, version),
            max_uri_size,
        ) == Err::<RequestLine, ParserError>(ParserError::TooLongUri),
{
    let line = line_of(method, target, version);
    lemma_method_letters(method);
    lemma_version_plain(version);
    let sp1 = method.len() as int;
    assert forall|j: int| 0 <= j < sp1 implies line[j] != 0x20 by {
        assert(line[j] == method[j]);
    }
    assert(line[sp1] == 0x20);
    lemma_index_of_byte_is(line, 0x20, sp1);
    let rest = line.skip(sp1 + 1);
    assert(rest =~= target + seq![0x20u8] + version);
    let sp2 = target.len() as int;
    assert forall|j: int| 0 <= j < sp2 implies rest[j] != 0x20 by {
        assert(rest[j] == target[j]);
    }
    assert(rest[sp2] == 0x20);
    lemma_index_of_byte_is(rest, 0x20, sp2);
    let tail = rest.skip(sp2 + 1);
    assert(tail =~= version);
    lemma_index_of_byte_is(tail, 0x20, tail.len() as int);
    assert(line.take(sp1) =~= method);
    assert(rest.take(sp2) =~= target);
}

/// The target limit is exact for the request line stage too.
///
/// Let the buffer start with a request line as in `lemma_target_limit`,
/// whose target holds no line terminator and which is within the request
/// line limit, followed by its terminator. The stage then fails with
/// `TooLongUri`, leaving everything as it is, when the target is longer than
/// the limit, and reads the line and moves on to the headers when the target
/// is at most as long as the limit and is well-formed UTF-8.
pub proof fn lemma_target_limit_stage(
    p: ParserView,
    r: RequestView,
    method: Seq<u8>,
    target: Seq<u8>,
    version: Seq<u8>,
    rest: Seq<u8>,
)
    requires
        p.buffered == line_of(method, target, version) + crlf() + rest,
        line_of(method, target, version).len() <= p.limits.max_request_line_size,
        method_of(method) != HttpMethod::Unknown,
        no_space(target),
        find(target, crlf()) is None,
        version_of(version) is Some,
    ensures
        target.len() <= p.limits.max_uri_size && valid_utf8(target) ==> request_line_step(p, r)
            == (Step {
            parser: ParserView { buffered: rest, state: ParserState::Headers, ..p },
            request: RequestView {
                method: method_of(method),
                uri: decode_utf8(target),
                http_version: version_of(version)->0,
                ..r
            },
            outcome: Ok(ParserOk::StageDone),
        }),
        target.len() > p.limits.max_uri_size ==> request_line_step(p, r) == failed(
            p,
            r,
            ParserError::TooLongUri,
        ),
{
    let line = line_of(method, target, version);
    let len = line.len() as int;
    let buf = p.buffered;
    lemma_method_letters(method);
    lemma_version_plain(version);
    lemma_find(target, crlf());
    lemma_target_limit(method, target, version, p.limits.max_uri_size);
    let m = method.len() as int;
    let t = target.len() as int;
    assert(buf.subrange(len, len + 2) =~= crlf());
    assert forall|j: int| 0 <= j < len implies !matches_at(buf, crlf(), j) by {
        let window = buf.subrange(j, j + 2);
        assert(window[0] == buf[j]);
        assert(window[1] == buf[j + 1]);
        if j < m {
            assert(buf[j] == method[j]);
        } else if j == m {
        } else if j < m + 1 + t {
            assert(buf[j] == target[j - m - 1]);
            if j + 1 < m + 1 + t {
                assert(buf[j + 1] == target[j - m]);
                assert(!matches_at(target, crlf(), j - m - 1));
                if window == crlf() {
                    assert(target.subrange(j - m - 1, j - m + 1) =~= crlf());
                }
            } else {
                assert(buf[j + 1] == 0x20);
            }
        } else if j == m + 1 + t {
        } else {
            assert(buf[j] == version[j - m - t - 2]);
        }
    }
    lemma_find_is(buf, crlf(), len);
    assert(buf.take(len) =~= line);
    assert(buf.skip(len + 2) =~= rest);
}

/// The reader with another header size limit.
pub open spec fn with_header_limit(p: ParserView, limit: usize) -> ParserView {
    ParserView { limits: Limits { max_header_size: limit, ..p.limits }, ..p }
}

/// The header size limit is exact.
///
/// Take a header section that the header stage reads to its end, and let
/// its size be the number of header bytes counted at the end, the
/// terminating empty line included. Under any other limit the stage reads
/// the section in the same way when the size is within the limit, a size of
/// exactly the limit included, and fails when the size exceeds the limit, if
/// only by one byte.
pub proof fn lemma_header_limit(p: ParserView, r: RequestView, limit: usize)
    requires
        headers_step(p, r).outcome == Ok::<ParserOk, ParserError>(ParserOk::StageDone),
    ensures
        headers_step(p, r).parser.header_bytes <= limit ==> headers_step(
            with_header_limit(p, limit),
            r,
        ) == (Step {
            parser: with_header_limit(headers_step(p, r).parser, limit),
            ..headers_step(p, r)
        }),
        headers_step(p, r).parser.header_bytes > limit ==> headers_step(
            with_header_limit(p, limit),
            r,
        ).outcome == Err::<ParserOk, ParserError>(ParserError::Error),
    decreases p.buffered.len(),
{
    lemma_find(p.buffered, crlf());
    match find(p.buffered, crlf()) {
        None => {},
        Some(end) => {
            if p.header_bytes + end + 2 > p.limits.max_header_size {
            } else if end == 0 {
            } else {
                match header_line(r.headers, p.buffered.take(end)) {
                    None => {},
                    Some(headers) => {
                        let moved = ParserView {
                            buffered: p.buffered.skip(end + 2),
                            header_bytes: (p.header_bytes + end + 2) as nat,
                            ..p
                        };
                        let stored = RequestView { headers, ..r };
                        lemma_headers_step(moved, stored);
                        lemma_header_limit(moved, stored, limit);
                        assert(with_header_limit(moved, limit) == (ParserView {
                            buffered: p.buffered.skip(end + 2),
                            header_bytes: (p.header_bytes + end + 2) as nat,
                            ..with_header_limit(p, limit)
                        }));
                    },
                }
            }
        },
    }
}

/// The header line `Content-Length: n`, without its terminator.
pub open spec fn content_length_line(n: nat) -> Seq<u8> {
    encode_utf8(content_length_name()) + seq![0x3Au8, 0x20u8] + encode_utf8(decimal_text(n))
}

/// The bytes of the name `Content-Length`.
proof fn lemma_content_length_bytes()
    ensures
        encode_utf8(content_length_name()).len() == 14,
        field_name_ok(encode_utf8(content_length_name())),
        forall|i: int| 0 <= i < 14 ==> #[trigger] encode_utf8(content_length_name())[i] != 0x3A,
        !names(encode_utf8(content_length_name()), host_name()),
        names(encode_utf8(content_length_name()), content_length_name()),
{
    let name = content_length_name();
    let bytes = encode_utf8(name);
    assert(is_ascii_chars(name));
    is_ascii_chars_encode_utf8(name);
    assert forall|i: int| 0 <= i < 14 implies is_tchar(#[trigger] bytes[i]) && bytes[i] != 0x3A by {
        assert(name[i] as u8 == bytes[i]);
    }
    assert(is_ascii_chars(host_name()));
    is_ascii_chars_encode_utf8(host_name());
}

/// What the header line `Content-Length: n` means.
///
/// The line is well formed, it sets the header `Content-Length` to the
/// decimal text of `n`, and the request then declares a body of length `n`.
pub proof fn lemma_content_length_line(headers: Seq<Entry>, n: usize)
    ensures
        header_line(headers, content_length_line(n as nat)) == Some(
            upsert(headers, content_length_name(), decimal_text(n as nat)),
        ),
        declared_length(upsert(headers, content_length_name(), decimal_text(n as nat))) == Some(
            Some(n),
        ),
{
    let name = encode_utf8(content_length_name());
    let text = decimal_text(n as nat);
    let digits = encode_utf8(text);
    let line = content_length_line(n as nat);
    lemma_content_length_bytes();
    lemma_decimal_text_bytes(n as nat);
    lemma_decimal_text_digits(n as nat);
    lemma_decimal_round_trip(n);
    encode_utf8_decode_utf8(text);
    lemma_upsert(headers, content_length_name(), text);

    assert forall|j: int| 0 <= j < 14 implies line[j] != 0x3A by {
        assert(line[j] == name[j]);
    }
    assert(line[14] == 0x3A);
    lemma_index_of_byte_is(line, 0x3A, 14);
    assert(line.take(14) =~= name);
    let raw = line.skip(15);
    assert(raw =~= seq![0x20u8] + digits);
    assert forall|j: int| 0 <= j < raw.len() implies raw[j] == 0x20 || is_digit(
        #[trigger] raw[j],
    ) by {
        if j > 0 {
            assert(raw[j] == digits[j - 1]);
        }
    }
    assert(is_digit(digits[0]));
    assert(is_digit(digits[digits.len() - 1]));
    assert(space_prefix_len(raw) == 1);
    assert(raw.skip(1) =~= digits);
    assert(space_prefix_len(digits) == 0);
    assert(trim_start(digits) == digits);
    assert(trim_start(raw) == digits) by {
        reveal_with_fuel(trim_start, 2);
    }
    assert(space_suffix_len(digits) == 0);
    assert(trim_end(digits) == digits);
    assert(trim_space(raw) == digits);
    assert forall|j: int| 0 <= j < digits.len() implies #[trigger] digits[j] < 0x80 by {
        assert(is_digit(digits[j]));
    }
    lemma_ascii_is_utf8(digits);
    assert(field_value_ok(raw));
    assert(header_field(line) == Some((name, digits)));
    assert(store_field(headers, name, digits) == Some(
        upsert(headers, content_length_name(), text),
    ));
}

/// A body of the declared length completes the request.
///
/// When the reader is at the body and has nothing of the body yet, the
/// request declares a length within the body size limit, and the bytes
/// buffered together with the bytes fed are exactly as many as declared,
/// then the feed reports `Done`, the body of the request is those bytes,
/// and nothing stays buffered.
pub proof fn lemma_declared_body(p: ParserView, r: RequestView, bytes: Seq<u8>)
    requires
        p.state == ParserState::Body,
        r.body.len() == 0,
        declared_length(r.headers) == Some(Some((p.buffered.len() + bytes.len()) as usize)),
        p.buffered.len() + bytes.len() <= PARSER_BUF_CAP,
        p.buffered.len() + bytes.len() <= p.limits.max_body_size,
    ensures
        feed_spec(p, r, bytes) == (Step {
            parser: ParserView { buffered: Seq::<u8>::empty(), state: ParserState::Done, ..p },
            request: RequestView { body: p.buffered + bytes, ..r },
            outcome: Ok(ParserOk::Done),
        }),
{
    let body = p.buffered + bytes;
    let q = ParserView { buffered: body, ..p };
    assert(body.take(body.len() as int) =~= body);
    assert(r.body + body =~= body);
    assert(body.skip(body.len() as int) =~= Seq::<u8>::empty());
    assert(feed_spec(p, r, bytes) == body_step(q, r));
}

/// The header section that declares a body of `n` bytes and nothing else:
/// the line `Content-Length: n` and the empty line, each with its
/// terminator.
pub open spec fn length_section(n: nat) -> Seq<u8> {
    content_length_line(n) + crlf() + crlf()
}

/// No byte of the line `Content-Length: n` is a carriage return.
proof fn lemma_content_length_line_plain(n: usize)
    ensures
        content_length_line(n as nat).len() > 14,
        forall|j: int|
            0 <= j < content_length_line(n as nat).len() ==> #[trigger] content_length_line(
                n as nat,
            )[j] != 0x0D,
{
    let name = encode_utf8(content_length_name());
    let digits = encode_utf8(decimal_text(n as nat));
    let line = content_length_line(n as nat);
    lemma_content_length_bytes();
    lemma_decimal_text_bytes(n as nat);
    lemma_decimal_text_digits(n as nat);
    assert forall|j: int| 0 <= j < line.len() implies #[trigger] line[j] != 0x0D by {
        if j < 14 {
            assert(line[j] == name[j]);
            assert(is_tchar(name[j]));
        } else if j >= 16 {
            assert(line[j] == digits[j - 16]);
            assert(is_digit(digits[j - 16]));
        }
    }
}

/// A declared length followed by as many bytes yields the body.
///
/// When the reader is at the headers with nothing buffered, a feed of the
/// header line `Content-Length: n`, the empty line and exactly `n` bytes,
/// followed through the checkpoint, reports `Done`, and the body of the
/// request is those `n` bytes, whatever they are. The limits have to leave
/// room for the section and the body.
pub proof fn lemma_length_and_body(p: ParserView, r: RequestView, body: Seq<u8>)
    requires
        p.state == ParserState::Headers,
        p.buffered.len() == 0,
        r.body.len() == 0,
        p.header_bytes + length_section(body.len()).len() <= p.limits.max_header_size,
        length_section(body.len()).len() + body.len() <= PARSER_BUF_CAP,
        body.len() <= p.limits.max_body_size,
    ensures
        feed_through(p, r, length_section(body.len()) + body) == (Step {
            parser: ParserView {
                buffered: Seq::<u8>::empty(),
                state: ParserState::Done,
                header_bytes: p.header_bytes + length_section(body.len()).len(),
                ..p
            },
            request: RequestView {
                headers: upsert(r.headers, content_length_name(), decimal_text(body.len())),
                body,
                ..r
            },
            outcome: Ok(ParserOk::Done),
        }),
{
    let n = body.len() as usize;
    let line = content_length_line(n as nat);
    let len = line.len() as int;
    let section = length_section(n as nat);
    let all = section + body;
    let headers = upsert(r.headers, content_length_name(), decimal_text(n as nat));
    lemma_content_length_line_plain(n);
    lemma_content_length_line(r.headers, n);

    // The first line ends where the section's first terminator stands.
    let q = ParserView { buffered: p.buffered + all, ..p };
    assert(q.buffered =~= all);
    assert(all.subrange(len, len + 2) =~= crlf());
    assert forall|j: int| 0 <= j < len implies !matches_at(all, crlf(), j) by {
        assert(all.subrange(j, j + 2)[0] == line[j]);
    }
    lemma_find_is(all, crlf(), len);
    assert(all.take(len) =~= line);

    // What follows the first line starts with the empty line.
    let rest = all.skip(len + 2);
    assert(rest =~= crlf() + body);
    assert(rest.subrange(0, 2) =~= crlf());
    lemma_find_is(rest, crlf(), 0);
    assert(rest.skip(2) =~= body);
    let second = ParserView { buffered: rest, header_bytes: (p.header_bytes + len + 2) as nat, ..p };
    let stored = RequestView { headers, ..r };
    let at_body = ParserView {
        buffered: body,
        state: ParserState::Body,
        header_bytes: (p.header_bytes + len + 4) as nat,
        ..p
    };
    assert(headers_step(second, stored) == (Step {
        parser: at_body,
        request: stored,
        outcome: Ok(ParserOk::StageDone),
    }));
    assert(headers_step(q, r) == headers_step(second, stored));
    assert(feed_spec(p, r, all) == (Step {
        parser: at_body,
        request: stored,
        outcome: Ok(ParserOk::HeadersDone),
    }));

    // The empty feed after the checkpoint moves the body.
    lemma_declared_body(at_body, stored, Seq::<u8>::empty());
    assert(body + Seq::<u8>::empty() =~= body);
}

/// A request made of a request line, the header `Content-Length` and a
/// body.
pub open spec fn request_bytes(
    method: Seq<u8>,
    target: Seq<u8>,
    version: Seq<u8>,
    body: Seq<u8>,
) -> Seq<u8> {
    line_of(method, target, version) + crlf() + (length_section(body.len()) + body)
}

/// What the reader makes of such a request.
pub open spec fn request_read(
    p: ParserView,
    r: RequestView,
    method: Seq<u8>,
    target: Seq<u8>,
    version: Seq<u8>,
    body: Seq<u8>,
) -> Step {
    Step {
        parser: ParserView {
            buffered: Seq::<u8>::empty(),
            state: ParserState::Done,
            header_bytes: p.header_bytes + length_section(body.len()).len(),
            ..p
        },
        request: RequestView {
            method: method_of(method),
            uri: decode_utf8(target),
            http_version: version_of(version)->0,
            headers: upsert(r.headers, content_length_name(), decimal_text(body.len())),
            body,
        },
        outcome: Ok(ParserOk::Done),
    }
}

/// A request within the limits is read as it was written.
///
/// Take a known method, a target without spaces and line terminators that
/// is well-formed UTF-8, a version and a body, and write them as a request
/// with the header `Content-Length`. When every part is within its limit
/// and the request fits the buffer, a reader at the start of a request that
/// is fed the request and followed through the checkpoint reports `Done`,
/// and the request holds the method, the target, the version, the declared
/// length and the body.
pub proof fn lemma_request_read(
    p: ParserView,
    r: RequestView,
    method: Seq<u8>,
    target: Seq<u8>,
    version: Seq<u8>,
    body: Seq<u8>,
)
    requires
        p.state == ParserState::RequestLine,
        p.buffered.len() == 0,
        r.body.len() == 0,
        method_of(method) != HttpMethod::Unknown,
        no_space(target),
        valid_utf8(target),
        find(target, crlf()) is None,
        version_of(version) is Some,
        line_of(method, target, version).len() <= p.limits.max_request_line_size,
        target.len() <= p.limits.max_uri_size,
        p.header_bytes + length_section(body.len()).len() <= p.limits.max_header_size,
        body.len() <= p.limits.max_body_size,
        request_bytes(method, target, version, body).len() <= PARSER_BUF_CAP,
    ensures
        feed_through(p, r, request_bytes(method, target, version, body)) == request_read(
            p,
            r,
            method,
            target,
            version,
            body,
        ),
{
    let all = request_bytes(method, target, version, body);
    let rest = length_section(body.len()) + body;
    let q = ParserView { buffered: p.buffered + all, ..p };
    assert(q.buffered =~= line_of(method, target, version) + crlf() + rest);
    lemma_target_limit_stage(q, r, method, target, version, rest);
    let line_done = request_line_step(q, r);
    let at_headers = ParserView {
        buffered: Seq::<u8>::empty(),
        state: ParserState::Headers,
        ..p
    };
    let named = line_done.request;
    assert(line_done.parser.buffered =~= at_headers.buffered + rest);
    assert(line_done.parser == (ParserView { buffered: at_headers.buffered + rest, ..at_headers }));
    assert(run(q, r) == run(line_done.parser, named));
    lemma_feed_through(p, r, all);
    lemma_feed_through(at_headers, named, rest);
    assert(run_through(q, r) == run_through(line_done.parser, named));
    lemma_length_and_body(at_headers, named, body);
}

/// A request within the limits is read byte by byte as it was written.
///
/// In the situation of `lemma_request_read`, with a request line that is
/// shorter than the request line limit, feeding the request one byte per
/// call ends in the same way as feeding it at once.
pub proof fn lemma_request_read_byte_by_byte(
    p: ParserView,
    r: RequestView,
    method: Seq<u8>,
    target: Seq<u8>,
    version: Seq<u8>,
    body: Seq<u8>,
)
    requires
        p.state == ParserState::RequestLine,
        p.buffered.len() == 0,
        r.body.len() == 0,
        method_of(method) != HttpMethod::Unknown,
        no_space(target),
        valid_utf8(target),
        find(target, crlf()) is None,
        version_of(version) is Some,
        line_of(method, target, version).len() < p.limits.max_request_line_size,
        target.len() <= p.limits.max_uri_size,
        p.header_bytes + length_section(body.len()).len() <= p.limits.max_header_size,
        body.len() <= p.limits.max_body_size,
        request_bytes(method, target, version, body).len() <= PARSER_BUF_CAP,
    ensures
        feed_all(p, r, byte_by_byte(request_bytes(method, target, version, body)))
            == request_read(p, r, method, target, version, body),
{
    let all = request_bytes(method, target, version, body);
    let rest = length_section(body.len()) + body;
    lemma_request_read(p, r, method, target, version, body);
    let q = ParserView { buffered: p.buffered + all, ..p };
    assert(q.buffered =~= line_of(method, target, version) + crlf() + rest);
    // The stage found the end of the line where the line ends.
    lemma_target_limit_stage(q, r, method, target, version, rest);
    lemma_find(q.buffered, crlf());
    let len = line_of(method, target, version).len() as int;
    match find(q.buffered, crlf()) {
        Some(end) => {
            assert(q.buffered.skip(end + 2).len() == q.buffered.skip(len + 2).len());
        },
        None => {},
    }
    assert(line_below_limit(p, all));
    lemma_byte_by_byte(p, r, all);
}

/// A body shorter than declared leaves the request incomplete.
///
/// In the situation of `lemma_declared_body`, feeding fewer bytes than
/// declared moves them to the body and reports `Incomplete`.
pub proof fn lemma_short_body(p: ParserView, r: RequestView, declared: usize, part: Seq<u8>)
    requires
        p.state == ParserState::Body,
        p.buffered.len() == 0,
        r.body.len() == 0,
        declared_length(r.headers) == Some(Some(declared)),
        part.len() < declared,
        part.len() <= PARSER_BUF_CAP,
        part.len() <= p.limits.max_body_size,
    ensures
        feed_spec(p, r, part) == (Step {
            parser: p,
            request: RequestView { body: part, ..r },
            outcome: Ok(ParserOk::Incomplete),
        }),
{
    let q = ParserView { buffered: p.buffered + part, ..p };
    assert(q.buffered =~= part);
    assert(part.take(part.len() as int) =~= part);
    assert(r.body + part =~= part);
    assert(part.skip(part.len() as int) =~= p.buffered);
    assert(feed_spec(p, r, part) == body_step(q, r));
}

} // verus!
