//! How the reader behaves over a sequence of feeds.
//!
//! The reader is driven by feeding it whatever bytes arrived. The theorems
//! here state that the fragmentation does not matter: feeding a request
//! whole, in two parts, in any number of parts or byte by byte ends with the
//! same request, the same outcome and the same reader. They also state that
//! the stages only move forward, that a feed of nothing to a reader that
//! waits changes nothing, and that the body stays within its limit.

use crate::bytes::{find, lemma_find, lemma_find_is, matches_at};
use crate::http::grammar::crlf;
use crate::http::parser::{
    body_step, declared_length, feed_spec, fits, header_line, headers_step, lemma_headers_step,
    request_line_step, run, starved, ParserError, ParserOk, ParserState, ParserView, Step,
    PARSER_BUF_CAP,
};
use crate::http::request::RequestView;
use vstd::prelude::*;

verus! {

/// The reader after `more` bytes are added to its buffer.
pub open spec fn extended(p: ParserView, more: Seq<u8>) -> ParserView {
    ParserView { buffered: p.buffered + more, ..p }
}

/// A first match stays the first match when bytes are added at the end.
pub proof fn lemma_find_extend(hay: Seq<u8>, more: Seq<u8>, pat: Seq<u8>)
    requires
        pat.len() > 0,
        find(hay, pat) is Some,
    ensures
        find(hay + more, pat) == find(hay, pat),
{
    lemma_find(hay, pat);
    let i = find(hay, pat)->0;
    let n = pat.len() as int;
    assert((hay + more).subrange(i, i + n) =~= hay.subrange(i, i + n));
    assert forall|j: int| 0 <= j < i implies !matches_at(hay + more, pat, j) by {
        assert(!matches_at(hay, pat, j));
        assert((hay + more).subrange(j, j + n) =~= hay.subrange(j, j + n));
    }
    lemma_find_is(hay + more, pat, i);
}

/// A match that lies within the first part of a sequence is a match of that
/// part.
pub proof fn lemma_find_within(hay: Seq<u8>, more: Seq<u8>, pat: Seq<u8>)
    requires
        pat.len() > 0,
        find(hay + more, pat) is Some,
        find(hay + more, pat)->0 + pat.len() <= hay.len(),
    ensures
        find(hay, pat) == find(hay + more, pat),
{
    lemma_find(hay + more, pat);
    let i = find(hay + more, pat)->0;
    let n = pat.len() as int;
    assert((hay + more).subrange(i, i + n) =~= hay.subrange(i, i + n));
    assert forall|j: int| 0 <= j < i implies !matches_at(hay, pat, j) by {
        assert(!matches_at(hay + more, pat, j));
        assert((hay + more).subrange(j, j + n) =~= hay.subrange(j, j + n));
    }
    lemma_find_is(hay, pat, i);
}

/// The request line stage does not depend on where the input was cut,
/// provided the line is shorter than the request line limit.
///
/// If the stage accepts the extended buffer, it either reads the same line
/// from the shorter buffer, or waits and leaves the shorter buffer as it is.
pub proof fn lemma_request_line_extend(p: ParserView, r: RequestView, more: Seq<u8>)
    requires
        request_line_step(extended(p, more), r).outcome is Ok,
        find(p.buffered + more, crlf()) != Some(p.limits.max_request_line_size as int),
    ensures
        ({
            let s1 = request_line_step(p, r);
            let s2 = request_line_step(extended(p, more), r);
            &&& s1.outcome is Ok
            &&& s1.outcome == Ok::<ParserOk, ParserError>(ParserOk::StageDone) ==> s2 == (Step {
                parser: extended(s1.parser, more),
                ..s1
            })
            &&& s1.outcome != Ok::<ParserOk, ParserError>(ParserOk::StageDone) ==> s1 == starved(
                p,
                r,
            )
        }),
{
    let whole = p.buffered + more;
    lemma_find(p.buffered, crlf());
    lemma_find(whole, crlf());
    match find(p.buffered, crlf()) {
        Some(end) => {
            lemma_find_extend(p.buffered, more, crlf());
            assert(whole.take(end) =~= p.buffered.take(end));
            assert(whole.skip(end + 2) =~= p.buffered.skip(end + 2) + more);
        },
        None => {
            match find(whole, crlf()) {
                Some(end) => {
                    if end + 2 <= p.buffered.len() {
                        lemma_find_within(p.buffered, more, crlf());
                    }
                },
                None => {},
            }
        },
    }
}

/// The header stage does not depend on where the input was cut.
///
/// If the stage accepts the extended buffer, then on the shorter buffer it
/// either completes in the same way, or waits; and when it waits, going on
/// from there with the added bytes is the same as starting with them.
pub proof fn lemma_headers_extend(p: ParserView, r: RequestView, more: Seq<u8>)
    requires
        p.buffered.len() + more.len() <= PARSER_BUF_CAP,
        headers_step(extended(p, more), r).outcome is Ok,
    ensures
        ({
            let s1 = headers_step(p, r);
            let s2 = headers_step(extended(p, more), r);
            &&& s1.outcome is Ok
            &&& s1.outcome == Ok::<ParserOk, ParserError>(ParserOk::StageDone) ==> s2 == (Step {
                parser: extended(s1.parser, more),
                ..s1
            })
            &&& s1.outcome != Ok::<ParserOk, ParserError>(ParserOk::StageDone) ==> s2
                == headers_step(extended(s1.parser, more), s1.request)
        }),
    decreases p.buffered.len(),
{
    let whole = p.buffered + more;
    lemma_find(p.buffered, crlf());
    match find(p.buffered, crlf()) {
        None => {
            if p.buffered.len() == PARSER_BUF_CAP {
                assert(whole =~= p.buffered);
                assert(extended(p, more) == p);
            }
        },
        Some(end) => {
            lemma_find_extend(p.buffered, more, crlf());
            assert(whole.take(end) =~= p.buffered.take(end));
            assert(whole.skip(end + 2) =~= p.buffered.skip(end + 2) + more);
            if p.header_bytes + end + 2 > p.limits.max_header_size {
            } else if end == 0 {
            } else {
                match header_line(r.headers, p.buffered.take(end)) {
                    None => {},
                    Some(headers) => {
                        let moved = ParserView {
                            buffered: p.buffered.skip(end + 2),
                            header_bytes: (p.header_bytes + end + 2) as nat,
                            ..p
                        };
                        let stored = RequestView { headers, ..r };
                        assert(extended(moved, more) == (ParserView {
                            buffered: whole.skip(end + 2),
                            header_bytes: (p.header_bytes + end + 2) as nat,
                            ..extended(p, more)
                        }));
                        lemma_headers_extend(moved, stored, more);
                    },
                }
            }
        },
    }
}

/// The body stage does not depend on where the input was cut.
///
/// If the stage accepts the extended buffer, then on the shorter buffer it
/// either completes the body in the same way, or moves what it has and
/// waits; and when it waits, going on from there with the added bytes is the
/// same as starting with them.
pub proof fn lemma_body_extend(p: ParserView, r: RequestView, more: Seq<u8>)
    requires
        body_step(extended(p, more), r).outcome is Ok,
    ensures
        ({
            let s1 = body_step(p, r);
            let s2 = body_step(extended(p, more), r);
            &&& s1.outcome is Ok
            &&& s1.outcome == Ok::<ParserOk, ParserError>(ParserOk::Done) ==> s2 == (Step {
                parser: extended(s1.parser, more),
                ..s1
            })
            &&& s1.outcome != Ok::<ParserOk, ParserError>(ParserOk::Done) ==> s2 == body_step(
                extended(s1.parser, more),
                s1.request,
            )
        }),
{
    let whole = p.buffered + more;
    match declared_length(r.headers) {
        None => {},
        Some(None) => {},
        Some(Some(declared)) => {
            let remaining = if declared >= r.body.len() {
                declared - r.body.len()
            } else {
                0
            };
            let copy1 = if p.buffered.len() <= remaining {
                p.buffered.len() as int
            } else {
                remaining
            };
            let copy2 = if whole.len() <= remaining {
                whole.len() as int
            } else {
                remaining
            };
            let s1 = body_step(p, r);
            if r.body.len() + copy1 == declared {
                assert(copy1 == copy2);
                assert(whole.take(copy2) =~= p.buffered.take(copy1));
                assert(whole.skip(copy2) =~= p.buffered.skip(copy1) + more);
            } else {
                // Everything buffered went to the body, or the body is
                // already longer than declared and nothing moves.
                let rest = p.buffered.skip(copy1);
                let body1 = r.body + p.buffered.take(copy1);
                let remaining1 = if declared >= body1.len() {
                    declared - body1.len()
                } else {
                    0
                };
                let copy3 = if (rest + more).len() <= remaining1 {
                    (rest + more).len() as int
                } else {
                    remaining1
                };
                assert(copy1 + copy3 == copy2);
                assert(body1 + (rest + more).take(copy3) =~= r.body + whole.take(copy2));
                assert((rest + more).skip(copy3) =~= whole.skip(copy2));
            }
        },
    }
}

/// One feed as a caller that never stops at the checkpoint sees it: after
/// `HeadersDone` the reader is asked at once to go on with what it has
/// buffered.
pub open spec fn feed_through(p: ParserView, r: RequestView, bytes: Seq<u8>) -> Step {
    let s = feed_spec(p, r, bytes);
    if s.outcome == Ok::<ParserOk, ParserError>(ParserOk::HeadersDone) {
        feed_spec(s.parser, s.request, Seq::<u8>::empty())
    } else {
        s
    }
}

/// The request line, once complete, is shorter than the request line limit.
/// A line of exactly the limit is accepted when it arrives with its
/// terminator, and refused when the reader sees it without: only for such a
/// line does the fragmentation matter.
pub open spec fn line_below_limit(p: ParserView, bytes: Seq<u8>) -> bool {
    p.state == ParserState::RequestLine ==> find(p.buffered + bytes, crlf()) != Some(
        p.limits.max_request_line_size as int,
    )
}

/// The stages run on what is buffered, and once more after `HeadersDone`.
pub open spec fn run_through(p: ParserView, r: RequestView) -> Step {
    let s = run(p, r);
    if s.outcome == Ok::<ParserOk, ParserError>(ParserOk::HeadersDone) {
        run(s.parser, s.request)
    } else {
        s
    }
}

/// What running the stages can do to the reader: the buffer only loses
/// bytes at its front, the limits stay, and the stage only moves forward. At
/// the checkpoint the reader is in the body stage; when the request is
/// complete it is in the final stage.
pub proof fn lemma_run(p: ParserView, r: RequestView)
    ensures
        ({
            let s = run(p, r);
            &&& s.parser.buffered.len() <= p.buffered.len()
            &&& s.parser.buffered == p.buffered.skip(p.buffered.len() - s.parser.buffered.len())
            &&& s.parser.limits == p.limits
            &&& s.parser.state.rank() >= p.state.rank()
            &&& s.outcome != Ok::<ParserOk, ParserError>(ParserOk::StageDone)
            &&& s.outcome == Ok::<ParserOk, ParserError>(ParserOk::HeadersDone)
                ==> s.parser.state == ParserState::Body
            &&& s.outcome == Ok::<ParserOk, ParserError>(ParserOk::Done) ==> s.parser.state
                == ParserState::Done
            &&& s.outcome == Ok::<ParserOk, ParserError>(ParserOk::Incomplete) ==> s.parser.state
                != ParserState::Done
        }),
{
    lemma_find(p.buffered, crlf());
    assert(p.buffered.skip(0) =~= p.buffered);
    match p.state {
        ParserState::RequestLine => {
            let s = request_line_step(p, r);
            if s.outcome == Ok::<ParserOk, ParserError>(ParserOk::StageDone) {
                lemma_headers_step(s.parser, s.request);
                let t = headers_step(s.parser, s.request);
                let k = t.parser.header_bytes - s.parser.header_bytes;
                let end = find(p.buffered, crlf())->0;
                assert(p.buffered.skip(end + 2).skip(k) =~= p.buffered.skip(end + 2 + k));
            }
        },
        ParserState::Headers => {
            lemma_headers_step(p, r);
        },
        ParserState::Body => {},
        ParserState::Done => {},
    }
}

/// The stages follow one another and the last one is final.
///
/// A feed never takes the reader back to an earlier stage. A reader that is
/// done stays done, and the request stays as it is: such a feed reports
/// `Done`, or `BufferOverflow` when the bytes do not fit.
pub proof fn lemma_stages_move_forward(p: ParserView, r: RequestView, bytes: Seq<u8>)
    ensures
        feed_spec(p, r, bytes).parser.state.rank() >= p.state.rank(),
        p.state == ParserState::Done ==> {
            &&& feed_spec(p, r, bytes).parser.state == ParserState::Done
            &&& feed_spec(p, r, bytes).request == r
            &&& feed_spec(p, r, bytes).outcome == Ok::<ParserOk, ParserError>(ParserOk::Done)
                || feed_spec(p, r, bytes).outcome == Err::<ParserOk, ParserError>(
                ParserError::BufferOverflow,
            )
        },
{
    lemma_run(extended(p, bytes), r);
}

/// The body stays within the body size limit.
///
/// When a feed to a reader that is at the body succeeds and the request
/// declares a length, the body of the request is no longer than the limit
/// allows.
pub proof fn lemma_body_within_limit(p: ParserView, r: RequestView, bytes: Seq<u8>)
    requires
        p.state == ParserState::Body,
        declared_length(r.headers) is Some,
        feed_spec(p, r, bytes).outcome is Ok,
    ensures
        feed_spec(p, r, bytes).request.body.len() <= p.limits.max_body_size,
{
}

/// A feed that fits is the stages run on the extended buffer.
pub proof fn lemma_feed_through(p: ParserView, r: RequestView, bytes: Seq<u8>)
    requires
        p.buffered.len() + bytes.len() <= PARSER_BUF_CAP,
    ensures
        feed_through(p, r, bytes) == run_through(extended(p, bytes), r),
        fits(feed_through(p, r, bytes).parser),
{
    let q = extended(p, bytes);
    lemma_run(q, r);
    let s = run(q, r);
    assert(s.parser.buffered + Seq::<u8>::empty() =~= s.parser.buffered);
    assert(extended(s.parser, Seq::<u8>::empty()) == s.parser);
    lemma_run(s.parser, s.request);
}

/// `run_through` on a reader that is reading the body, or is done, does not
/// depend on where the input was cut.
proof fn lemma_through_extend_body(q: ParserView, r: RequestView, more: Seq<u8>)
    requires
        q.state == ParserState::Body || q.state == ParserState::Done,
        run_through(extended(q, more), r).outcome is Ok,
    ensures
        run_through(q, r).outcome is Ok,
        run_through(extended(run_through(q, r).parser, more), run_through(q, r).request)
            == run_through(extended(q, more), r),
{
    if q.state == ParserState::Body {
        lemma_body_extend(q, r, more);
    }
}

/// `run_through` on a reader that is reading the headers does not depend on
/// where the input was cut.
proof fn lemma_through_extend_headers(q: ParserView, r: RequestView, more: Seq<u8>)
    requires
        q.state == ParserState::Headers,
        q.buffered.len() + more.len() <= PARSER_BUF_CAP,
        run_through(extended(q, more), r).outcome is Ok,
    ensures
        run_through(q, r).outcome is Ok,
        run_through(extended(run_through(q, r).parser, more), run_through(q, r).request)
            == run_through(extended(q, more), r),
{
    lemma_headers_step(q, r);
    lemma_headers_step(extended(q, more), r);
    lemma_headers_extend(q, r, more);
    let h1 = headers_step(q, r);
    if h1.outcome == Ok::<ParserOk, ParserError>(ParserOk::StageDone) {
        lemma_body_extend(h1.parser, h1.request, more);
    }
}

/// `run_through` does not depend on where the input was cut, provided the
/// request line is shorter than the request line limit.
pub proof fn lemma_through_extend(q: ParserView, r: RequestView, more: Seq<u8>)
    requires
        q.buffered.len() + more.len() <= PARSER_BUF_CAP,
        line_below_limit(q, more),
        run_through(extended(q, more), r).outcome is Ok,
    ensures
        run_through(q, r).outcome is Ok,
        run_through(extended(run_through(q, r).parser, more), run_through(q, r).request)
            == run_through(extended(q, more), r),
{
    match q.state {
        ParserState::RequestLine => {
            lemma_find(q.buffered, crlf());
            let l2 = request_line_step(extended(q, more), r);
            if l2.outcome == Ok::<ParserOk, ParserError>(ParserOk::StageDone) {
                lemma_headers_step(l2.parser, l2.request);
            }
            lemma_request_line_extend(q, r, more);
            let l1 = request_line_step(q, r);
            if l1.outcome == Ok::<ParserOk, ParserError>(ParserOk::StageDone) {
                assert(run(q, r) == run(l1.parser, l1.request));
                assert(run(extended(q, more), r) == run(extended(l1.parser, more), l1.request));
                lemma_through_extend_headers(l1.parser, l1.request, more);
            }
        },
        ParserState::Headers => {
            lemma_through_extend_headers(q, r, more);
        },
        ParserState::Body => {
            lemma_through_extend_body(q, r, more);
        },
        ParserState::Done => {
            lemma_through_extend_body(q, r, more);
        },
    }
}

/// Feeding in two parts is feeding the whole.
///
/// If the reader accepts the bytes `a + b` fed at once, it accepts `a`, and
/// feeding `b` after `a` leaves the same request, the same outcome and the
/// same reader as feeding `a + b`.
pub proof fn lemma_feed_split(p: ParserView, r: RequestView, a: Seq<u8>, b: Seq<u8>)
    requires
        fits(p),
        line_below_limit(p, a + b),
        feed_through(p, r, a + b).outcome is Ok,
    ensures
        feed_through(p, r, a).outcome is Ok,
        line_below_limit(p, a),
        feed_through(feed_through(p, r, a).parser, feed_through(p, r, a).request, b)
            == feed_through(p, r, a + b),
{
    assert(p.buffered.len() + (a + b).len() <= PARSER_BUF_CAP);
    let q = extended(p, a);
    assert((p.buffered + a) + b =~= p.buffered + (a + b));
    assert(extended(q, b) == extended(p, a + b));
    lemma_feed_through(p, r, a + b);
    lemma_feed_through(p, r, a);
    lemma_through_extend(q, r, b);
    let s1 = run_through(q, r);
    lemma_run(q, r);
    lemma_run(run(q, r).parser, run(q, r).request);
    lemma_feed_through(s1.parser, s1.request, b);
    if p.state == ParserState::RequestLine && find(p.buffered + a, crlf()) is Some {
        lemma_find_extend(p.buffered + a, b, crlf());
    }
}

/// The bytes of all the fragments, in their order.
pub open spec fn joined(fragments: Seq<Seq<u8>>) -> Seq<u8>
    decreases fragments.len(),
{
    if fragments.len() == 0 {
        Seq::<u8>::empty()
    } else {
        joined(fragments.drop_last()) + fragments.last()
    }
}

/// Feeds the fragments one after the other. A failure ends the sequence:
/// what comes after it is not fed.
pub open spec fn feed_all(p: ParserView, r: RequestView, fragments: Seq<Seq<u8>>) -> Step
    decreases fragments.len(),
{
    if fragments.len() == 0 {
        starved(p, r)
    } else {
        let s = feed_all(p, r, fragments.drop_last());
        if s.outcome is Err {
            s
        } else {
            feed_through(s.parser, s.request, fragments.last())
        }
    }
}

/// Fragmentation does not matter.
///
/// If the reader accepts some bytes fed at once, then feeding them in any
/// fragments leaves the same request, the same outcome and the same reader.
pub proof fn lemma_fragments(p: ParserView, r: RequestView, fragments: Seq<Seq<u8>>)
    requires
        fits(p),
        fragments.len() > 0,
        line_below_limit(p, joined(fragments)),
        feed_through(p, r, joined(fragments)).outcome is Ok,
    ensures
        feed_all(p, r, fragments) == feed_through(p, r, joined(fragments)),
    decreases fragments.len(),
{
    let head = fragments.drop_last();
    let last = fragments.last();
    if head.len() == 0 {
        assert(joined(head) =~= Seq::<u8>::empty());
        assert(joined(fragments) =~= last);
        assert(feed_all(p, r, head) == starved(p, r));
    } else {
        lemma_feed_split(p, r, joined(head), last);
        lemma_fragments(p, r, head);
    }
}

/// The bytes as fragments of one byte each.
pub open spec fn byte_by_byte(bytes: Seq<u8>) -> Seq<Seq<u8>> {
    Seq::new(bytes.len(), |i: int| seq![bytes[i]])
}

/// The one-byte fragments of some bytes join to those bytes.
pub proof fn lemma_byte_by_byte_joined(bytes: Seq<u8>)
    ensures
        joined(byte_by_byte(bytes)) == bytes,
    decreases bytes.len(),
{
    if bytes.len() == 0 {
        assert(joined(byte_by_byte(bytes)) =~= bytes);
    } else {
        let head = bytes.drop_last();
        lemma_byte_by_byte_joined(head);
        assert(byte_by_byte(bytes).drop_last() =~= byte_by_byte(head));
        assert(joined(byte_by_byte(bytes)) =~= bytes);
    }
}

/// Feeding a request at once or byte by byte is the same.
///
/// If the reader accepts some bytes fed at once, then feeding them one byte
/// per call leaves the same request, the same outcome and the same reader.
/// The theorem leaves out a request line whose length is exactly the request
/// line limit: such a line is accepted when it arrives together with its
/// terminator and refused when it arrives without.
pub proof fn lemma_byte_by_byte(p: ParserView, r: RequestView, bytes: Seq<u8>)
    requires
        fits(p),
        bytes.len() > 0,
        line_below_limit(p, bytes),
        feed_through(p, r, bytes).outcome is Ok,
    ensures
        feed_all(p, r, byte_by_byte(bytes)) == feed_through(p, r, bytes),
{
    lemma_byte_by_byte_joined(bytes);
    lemma_fragments(p, r, byte_by_byte(bytes));
}

/// The current stage has nothing it could read: the request line or the
/// next header line is not terminated yet, or the body is still short and
/// no byte is buffered for it.
pub open spec fn stalled(p: ParserView, r: RequestView) -> bool {
    match p.state {
        ParserState::RequestLine => find(p.buffered, crlf()) is None && p.buffered.len()
            <= p.limits.max_request_line_size,
        ParserState::Headers => find(p.buffered, crlf()) is None && p.buffered.len()
            != PARSER_BUF_CAP,
        ParserState::Body => match declared_length(r.headers) {
            Some(Some(declared)) => {
                &&& r.body.len() != declared
                &&& r.body.len() <= p.limits.max_body_size
                &&& (p.buffered.len() == 0 || r.body.len() > declared)
            },
            _ => false,
        },
        ParserState::Done => false,
    }
}

/// A header stage that waits has consumed every terminated line.
pub proof fn lemma_headers_wait(p: ParserView, r: RequestView)
    requires
        headers_step(p, r).outcome == Ok::<ParserOk, ParserError>(ParserOk::Incomplete),
    ensures
        find(headers_step(p, r).parser.buffered, crlf()) is None,
        headers_step(p, r).parser.buffered.len() != PARSER_BUF_CAP,
    decreases p.buffered.len(),
{
    lemma_find(p.buffered, crlf());
    match find(p.buffered, crlf()) {
        None => {},
        Some(end) => {
            if p.header_bytes + end + 2 > p.limits.max_header_size {
            } else if end == 0 {
            } else {
                match header_line(r.headers, p.buffered.take(end)) {
                    None => {},
                    Some(headers) => {
                        lemma_headers_wait(
                            ParserView {
                                buffered: p.buffered.skip(end + 2),
                                header_bytes: (p.header_bytes + end + 2) as nat,
                                ..p
                            },
                            RequestView { headers, ..r },
                        );
                    },
                }
            }
        },
    }
}

/// An empty feed to a reader that has nothing to read changes nothing and
/// reports `Incomplete`.
pub proof fn lemma_empty_feed_stalled(p: ParserView, r: RequestView)
    requires
        fits(p),
        stalled(p, r),
    ensures
        feed_spec(p, r, Seq::<u8>::empty()) == starved(p, r),
{
    assert(p.buffered + Seq::<u8>::empty() =~= p.buffered);
    assert(extended(p, Seq::<u8>::empty()) == p);
    assert(p.buffered.skip(0) =~= p.buffered);
    assert(p.buffered.take(0) =~= Seq::<u8>::empty());
    assert(r.body + Seq::<u8>::empty() =~= r.body);
}

/// A reader that reported `Incomplete` has nothing to read.
pub proof fn lemma_incomplete_is_stalled(p: ParserView, r: RequestView, bytes: Seq<u8>)
    requires
        feed_spec(p, r, bytes).outcome == Ok::<ParserOk, ParserError>(ParserOk::Incomplete),
    ensures
        stalled(feed_spec(p, r, bytes).parser, feed_spec(p, r, bytes).request),
        fits(feed_spec(p, r, bytes).parser),
{
    let q = extended(p, bytes);
    lemma_run(q, r);
    lemma_find(q.buffered, crlf());
    match q.state {
        ParserState::RequestLine => {
            let l = request_line_step(q, r);
            if l.outcome == Ok::<ParserOk, ParserError>(ParserOk::StageDone) {
                lemma_headers_step(l.parser, l.request);
                lemma_headers_wait(l.parser, l.request);
            }
        },
        ParserState::Headers => {
            lemma_headers_step(q, r);
            lemma_headers_wait(q, r);
        },
        ParserState::Body => {},
        ParserState::Done => {},
    }
}

/// Feeding nothing is idempotent.
///
/// Once a feed reported `Incomplete`, an empty feed leaves the buffer, the
/// stage and the request as they are and reports `Incomplete` again.
pub proof fn lemma_empty_feed_idempotent(p: ParserView, r: RequestView, bytes: Seq<u8>)
    requires
        feed_spec(p, r, bytes).outcome == Ok::<ParserOk, ParserError>(ParserOk::Incomplete),
    ensures
        feed_spec(
            feed_spec(p, r, bytes).parser,
            feed_spec(p, r, bytes).request,
            Seq::<u8>::empty(),
        ) == feed_spec(p, r, bytes),
{
    let s = feed_spec(p, r, bytes);
    lemma_incomplete_is_stalled(p, r, bytes);
    lemma_empty_feed_stalled(s.parser, s.request);
}

/// An empty feed to a reader that is done changes nothing and reports
/// `Done`.
pub proof fn lemma_empty_feed_done(p: ParserView, r: RequestView)
    requires
        fits(p),
        p.state == ParserState::Done,
    ensures
        feed_spec(p, r, Seq::<u8>::empty()) == (Step {
            parser: p,
            request: r,
            outcome: Ok(ParserOk::Done),
        }),
{
    assert(p.buffered + Seq::<u8>::empty() =~= p.buffered);
    assert(extended(p, Seq::<u8>::empty()) == p);
}

} // verus!
