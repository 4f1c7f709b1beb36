//! Byte-string primitives used by the request reader: pattern search, the
//! character classes of the header grammar, whitespace trimming, decimal
//! numbers, and the bridge between bytes and text.

use vstd::prelude::*;
use vstd::string::StringSliceAdditionalSpecFns;
use vstd::utf8::{partial_valid_utf8_extend_ascii_block, valid_utf8};

verus! {

/// `pat` occurs in `hay` starting at index `i`.
pub open spec fn matches_at(hay: Seq<u8>, pat: Seq<u8>, i: int) -> bool {
    &&& 0 <= i
    &&& i + pat.len() <= hay.len()
    &&& hay.subrange(i, i + pat.len()) == pat
}

/// The first index at or after `start` where `pat` occurs in `hay`.
pub open spec fn find_from(hay: Seq<u8>, pat: Seq<u8>, start: int) -> Option<int>
    decreases hay.len() - start,
{
    if start < 0 || start >= hay.len() || start + pat.len() > hay.len() {
        None
    } else if matches_at(hay, pat, start) {
        Some(start)
    } else {
        find_from(hay, pat, start + 1)
    }
}

/// The first index where `pat` occurs in `hay`.
pub open spec fn find(hay: Seq<u8>, pat: Seq<u8>) -> Option<int> {
    find_from(hay, pat, 0)
}

/// `find_from` returns the least matching index at or after `start`, and
/// `None` exactly when there is none.
pub proof fn lemma_find_from(hay: Seq<u8>, pat: Seq<u8>, start: int)
    requires
        0 <= start,
        pat.len() > 0,
    ensures
        match find_from(hay, pat, start) {
            Some(i) => {
                &&& start <= i
                &&& matches_at(hay, pat, i)
                &&& forall|j: int| start <= j < i ==> !matches_at(hay, pat, j)
            },
            None => forall|j: int| start <= j ==> !matches_at(hay, pat, j),
        },
    decreases hay.len() - start,
{
    if start >= hay.len() || start + pat.len() > hay.len() {
    } else if matches_at(hay, pat, start) {
    } else {
        lemma_find_from(hay, pat, start + 1);
    }
}

/// `find` returns the least matching index, and `None` exactly when the
/// pattern does not occur.
pub proof fn lemma_find(hay: Seq<u8>, pat: Seq<u8>)
    requires
        pat.len() > 0,
    ensures
        match find(hay, pat) {
            Some(i) => {
                &&& matches_at(hay, pat, i)
                &&& forall|j: int| 0 <= j < i ==> !matches_at(hay, pat, j)
            },
            None => forall|j: int| !matches_at(hay, pat, j),
        },
{
    lemma_find_from(hay, pat, 0);
}

/// An index that matches and has no match before it is the one `find` returns.
pub proof fn lemma_find_is(hay: Seq<u8>, pat: Seq<u8>, i: int)
    requires
        pat.len() > 0,
        matches_at(hay, pat, i),
        forall|j: int| 0 <= j < i ==> !matches_at(hay, pat, j),
    ensures
        find(hay, pat) == Some(i),
{
    lemma_find(hay, pat);
}

/// A sequence with no match has no first match.
pub proof fn lemma_find_none(hay: Seq<u8>, pat: Seq<u8>)
    requires
        pat.len() > 0,
        forall|j: int| !matches_at(hay, pat, j),
    ensures
        find(hay, pat) is None,
{
    lemma_find(hay, pat);
}

/// Whether `pat` occurs in `hay` at `i`, decided byte by byte.
fn occurs_at(hay: &[u8], pat: &[u8], i: usize) -> (r: bool)
    requires
        i + pat@.len() <= hay@.len(),
    ensures
        r == matches_at(hay@, pat@, i as int),
{
    let hay_len: usize = hay.len();
    let mut k: usize = 0;
    while k < pat.len()
        invariant
            k <= pat@.len(),
            i + pat@.len() <= hay@.len() == hay_len,
            forall|t: int| 0 <= t < k ==> hay@[i + t] == pat@[t],
        decreases pat@.len() - k,
    {
        if hay[i + k] != pat[k] {
            proof {
                let window = hay@.subrange(i as int, i + pat@.len());
                assert(window[k as int] == hay@[i + k]);
            }
            return false;
        }
        k = k + 1;
    }
    assert(hay@.subrange(i as int, i + pat@.len()) =~= pat@);
    true
}

/// Finds the first occurrence of a non-empty pattern.
pub fn find_in(hay: &[u8], pat: &[u8]) -> (r: Option<usize>)
    requires
        pat@.len() > 0,
    ensures
        match r {
            Some(i) => find(hay@, pat@) == Some(i as int),
            None => find(hay@, pat@) is None,
        },
{
    if pat.len() > hay.len() {
        proof {
            lemma_find_none(hay@, pat@);
        }
        return None;
    }
    let last: usize = hay.len() - pat.len();
    let mut i: usize = 0;
    while i <= last
        invariant
            i <= last + 1,
            pat@.len() > 0,
            hay@.len() <= usize::MAX,
            last == hay@.len() - pat@.len(),
            forall|j: int| 0 <= j < i ==> !matches_at(hay@, pat@, j),
        decreases last + 1 - i,
    {
        if occurs_at(hay, pat, i) {
            proof {
                lemma_find_is(hay@, pat@, i as int);
            }
            return Some(i);
        }
        i = i + 1;
    }
    proof {
        lemma_find_none(hay@, pat@);
    }
    None
}

/// The first index of byte `b` in `s`, or the length of `s` when it is absent.
pub open spec fn index_of_byte(s: Seq<u8>, b: u8) -> int
    decreases s.len(),
{
    if s.len() == 0 {
        0
    } else if s[0] == b {
        0
    } else {
        1 + index_of_byte(s.skip(1), b)
    }
}

/// `index_of_byte` is the least index holding `b`, or the length.
pub proof fn lemma_index_of_byte(s: Seq<u8>, b: u8)
    ensures
        0 <= index_of_byte(s, b) <= s.len(),
        forall|j: int| 0 <= j < index_of_byte(s, b) ==> s[j] != b,
        index_of_byte(s, b) < s.len() ==> s[index_of_byte(s, b)] == b,
    decreases s.len(),
{
    if s.len() == 0 {
    } else if s[0] == b {
    } else {
        let rest = s.skip(1);
        lemma_index_of_byte(rest, b);
        let k = index_of_byte(rest, b);
        assert forall|j: int| 0 <= j < 1 + k implies s[j] != b by {
            if j > 0 {
                assert(rest[j - 1] == s[j]);
            }
        }
        if k < rest.len() {
            assert(rest[k] == s[k + 1]);
        }
    }
}

/// An index that holds `b` with no `b` before it is the one `index_of_byte`
/// returns; so is the length when `b` is absent.
pub proof fn lemma_index_of_byte_is(s: Seq<u8>, b: u8, i: int)
    requires
        0 <= i <= s.len(),
        forall|j: int| 0 <= j < i ==> s[j] != b,
        i < s.len() ==> s[i] == b,
    ensures
        index_of_byte(s, b) == i,
{
    lemma_index_of_byte(s, b);
}

/// Finds the first index of `b` in `s[from..to]`, relative to `from`.
pub fn position_of(s: &[u8], from: usize, to: usize, b: u8) -> (r: usize)
    requires
        from <= to <= s@.len(),
    ensures
        r == index_of_byte(s@.subrange(from as int, to as int), b),
        r <= to - from,
{
    let ghost window = s@.subrange(from as int, to as int);
    let mut i: usize = from;
    while i < to
        invariant
            from <= i <= to <= s@.len(),
            window == s@.subrange(from as int, to as int),
            forall|j: int| 0 <= j < i - from ==> window[j] != b,
        decreases to - i,
    {
        if s[i] == b {
            proof {
                assert(window[i - from] == s@[i as int]);
                lemma_index_of_byte_is(window, b, i - from);
            }
            return i - from;
        }
        proof {
            assert(window[i - from] == s@[i as int]);
        }
        i = i + 1;
    }
    proof {
        lemma_index_of_byte_is(window, b, to - from);
    }
    to - from
}

/// Compares two byte strings.
pub fn bytes_equal(a: &[u8], b: &[u8]) -> (r: bool)
    ensures
        r == (a@ == b@),
{
    if a.len() != b.len() {
        return false;
    }
    let mut i: usize = 0;
    while i < a.len()
        invariant
            i <= a@.len(),
            a@.len() == b@.len(),
            forall|j: int| 0 <= j < i ==> a@[j] == b@[j],
        decreases a@.len() - i,
    {
        if a[i] != b[i] {
            return false;
        }
        i = i + 1;
    }
    assert(a@ =~= b@);
    true
}

/// ASCII decimal digit.
pub open spec fn is_digit(b: u8) -> bool {
    0x30 <= b <= 0x39
}

/// ASCII letter.
pub open spec fn is_alpha(b: u8) -> bool {
    (0x41 <= b <= 0x5A) || (0x61 <= b <= 0x7A)
}

/// A byte allowed in a header field name: an ASCII letter or digit, or one of
/// ``! # $ % & ' * + - . ^ _ ` | ~``.
pub open spec fn is_tchar(b: u8) -> bool {
    is_digit(b) || is_alpha(b) || b == 0x21 || b == 0x23 || b == 0x24 || b == 0x25 || b == 0x26
        || b == 0x27 || b == 0x2A || b == 0x2B || b == 0x2D || b == 0x2E || b == 0x5E || b
        == 0x5F || b == 0x60 || b == 0x7C || b == 0x7E
}

/// A control byte that a header value may not hold: any control but
/// horizontal tab.
pub open spec fn is_forbidden_control(b: u8) -> bool {
    (b < 0x20 && b != 0x09) || b == 0x7F
}

/// Every byte of `s` is a decimal digit.
pub open spec fn all_digits(s: Seq<u8>) -> bool {
    forall|i: int| 0 <= i < s.len() ==> is_digit(#[trigger] s[i])
}

/// Every byte of `s` is allowed in a header field name.
pub open spec fn all_tchars(s: Seq<u8>) -> bool {
    forall|i: int| 0 <= i < s.len() ==> is_tchar(#[trigger] s[i])
}

/// Some byte of `s` is a control byte that a header value may not hold.
pub open spec fn has_forbidden_control(s: Seq<u8>) -> bool {
    exists|i: int| 0 <= i < s.len() && is_forbidden_control(#[trigger] s[i])
}

/// Decides `is_tchar`.
pub fn tchar(b: u8) -> (r: bool)
    ensures
        r == is_tchar(b),
{
    (b >= 0x30 && b <= 0x39) || (b >= 0x41 && b <= 0x5A) || (b >= 0x61 && b <= 0x7A) || b == 0x21
        || b == 0x23 || b == 0x24 || b == 0x25 || b == 0x26 || b == 0x27 || b == 0x2A || b
        == 0x2B || b == 0x2D || b == 0x2E || b == 0x5E || b == 0x5F || b == 0x60 || b == 0x7C
        || b == 0x7E
}

/// The lower-case form of an ASCII letter; any other byte unchanged.
pub open spec fn ascii_lower(b: u8) -> u8 {
    if 0x41 <= b <= 0x5A {
        (b + 0x20) as u8
    } else {
        b
    }
}

/// `a` and `b` are equal up to the case of ASCII letters.
pub open spec fn eq_ignore_case(a: Seq<u8>, b: Seq<u8>) -> bool {
    &&& a.len() == b.len()
    &&& forall|i: int| 0 <= i < a.len() ==> ascii_lower(#[trigger] a[i]) == ascii_lower(b[i])
}

/// Decides `eq_ignore_case`.
pub fn equal_ignoring_case(a: &[u8], b: &[u8]) -> (r: bool)
    ensures
        r == eq_ignore_case(a@, b@),
{
    if a.len() != b.len() {
        return false;
    }
    let mut i: usize = 0;
    while i < a.len()
        invariant
            i <= a@.len(),
            a@.len() == b@.len(),
            forall|j: int| 0 <= j < i ==> ascii_lower(#[trigger] a@[j]) == ascii_lower(b@[j]),
        decreases a@.len() - i,
    {
        let x: u8 = a[i];
        let y: u8 = b[i];
        let lx: u8 = if x >= 0x41 && x <= 0x5A { x + 0x20 } else { x };
        let ly: u8 = if y >= 0x41 && y <= 0x5A { y + 0x20 } else { y };
        if lx != ly {
            return false;
        }
        i = i + 1;
    }
    true
}

/// An ASCII white-space byte: space, or one of tab, line feed, vertical tab,
/// form feed, carriage return.
pub open spec fn is_ascii_space(b: u8) -> bool {
    b == 0x20 || (0x09 <= b <= 0x0D)
}

/// The two bytes encode U+0085 or U+00A0.
pub open spec fn is_space_pair(a: u8, b: u8) -> bool {
    a == 0xC2 && (b == 0x85 || b == 0xA0)
}

/// The three bytes encode one of the white-space characters U+1680,
/// U+2000 to U+200A, U+2028, U+2029, U+202F, U+205F, U+3000.
pub open spec fn is_space_triple(a: u8, b: u8, c: u8) -> bool {
    ||| (a == 0xE1 && b == 0x9A && c == 0x80)
    ||| (a == 0xE2 && b == 0x80 && ((0x80 <= c <= 0x8A) || c == 0xA8 || c == 0xA9 || c == 0xAF))
    ||| (a == 0xE2 && b == 0x81 && c == 0x9F)
    ||| (a == 0xE3 && b == 0x80 && c == 0x80)
}

/// Length in bytes of the encoded white-space character that `s` starts
/// with, 0 when it starts with none.
pub open spec fn space_prefix_len(s: Seq<u8>) -> int {
    if s.len() >= 1 && is_ascii_space(s[0]) {
        1
    } else if s.len() >= 2 && is_space_pair(s[0], s[1]) {
        2
    } else if s.len() >= 3 && is_space_triple(s[0], s[1], s[2]) {
        3
    } else {
        0
    }
}

/// Length in bytes of the encoded white-space character that `s` ends with,
/// 0 when it ends with none.
pub open spec fn space_suffix_len(s: Seq<u8>) -> int {
    let n = s.len() as int;
    if n >= 1 && is_ascii_space(s[n - 1]) {
        1
    } else if n >= 2 && is_space_pair(s[n - 2], s[n - 1]) {
        2
    } else if n >= 3 && is_space_triple(s[n - 3], s[n - 2], s[n - 1]) {
        3
    } else {
        0
    }
}

/// `s` without its leading white space.
pub open spec fn trim_start(s: Seq<u8>) -> Seq<u8>
    decreases s.len(),
{
    let k = space_prefix_len(s);
    if k == 0 {
        s
    } else {
        trim_start(s.skip(k))
    }
}

/// `s` without its trailing white space.
pub open spec fn trim_end(s: Seq<u8>) -> Seq<u8>
    decreases s.len(),
{
    let k = space_suffix_len(s);
    if k == 0 {
        s
    } else {
        trim_end(s.take(s.len() - k))
    }
}

/// `s` without the white space that surrounds it.
pub open spec fn trim_space(s: Seq<u8>) -> Seq<u8> {
    trim_end(trim_start(s))
}

/// Decides `is_space_triple`.
fn space_triple(a: u8, b: u8, c: u8) -> (r: bool)
    ensures
        r == is_space_triple(a, b, c),
{
    (a == 0xE1 && b == 0x9A && c == 0x80) || (a == 0xE2 && b == 0x80 && ((c >= 0x80 && c <= 0x8A)
        || c == 0xA8 || c == 0xA9 || c == 0xAF)) || (a == 0xE2 && b == 0x81 && c == 0x9F) || (a
        == 0xE3 && b == 0x80 && c == 0x80)
}

/// Computes `space_prefix_len` of `s[from..to]`.
fn space_prefix(s: &[u8], from: usize, to: usize) -> (r: usize)
    requires
        from <= to <= s@.len(),
    ensures
        r == space_prefix_len(s@.subrange(from as int, to as int)),
        r <= to - from,
        r <= 3,
{
    let n: usize = to - from;
    if n >= 1 && (s[from] == 0x20 || (s[from] >= 0x09 && s[from] <= 0x0D)) {
        1
    } else if n >= 2 && s[from] == 0xC2 && (s[from + 1] == 0x85 || s[from + 1] == 0xA0) {
        2
    } else if n >= 3 && space_triple(s[from], s[from + 1], s[from + 2]) {
        3
    } else {
        0
    }
}

/// Computes `space_suffix_len` of `s[from..to]`.
fn space_suffix(s: &[u8], from: usize, to: usize) -> (r: usize)
    requires
        from <= to <= s@.len(),
    ensures
        r == space_suffix_len(s@.subrange(from as int, to as int)),
        r <= to - from,
        r <= 3,
{
    let n: usize = to - from;
    if n >= 1 && (s[to - 1] == 0x20 || (s[to - 1] >= 0x09 && s[to - 1] <= 0x0D)) {
        1
    } else if n >= 2 && s[to - 2] == 0xC2 && (s[to - 1] == 0x85 || s[to - 1] == 0xA0) {
        2
    } else if n >= 3 && space_triple(s[to - 3], s[to - 2], s[to - 1]) {
        3
    } else {
        0
    }
}

/// Finds the bounds of `s[from..to]` without its surrounding white space.
pub fn trim_bounds(s: &[u8], from: usize, to: usize) -> (r: (usize, usize))
    requires
        from <= to <= s@.len(),
    ensures
        from <= r.0 <= r.1 <= to,
        s@.subrange(r.0 as int, r.1 as int) == trim_space(s@.subrange(from as int, to as int)),
{
    let mut a: usize = from;
    loop
        invariant
            from <= a <= to <= s@.len(),
            trim_start(s@.subrange(a as int, to as int)) == trim_start(
                s@.subrange(from as int, to as int),
            ),
        ensures
            from <= a <= to,
            s@.subrange(a as int, to as int) == trim_start(s@.subrange(from as int, to as int)),
        decreases to - a,
    {
        let k: usize = space_prefix(s, a, to);
        if k == 0 {
            break;
        }
        proof {
            assert(s@.subrange(a as int, to as int).skip(k as int) =~= s@.subrange(
                a + k,
                to as int,
            ));
        }
        a = a + k;
    }
    let mut b: usize = to;
    loop
        invariant
            a <= b <= to <= s@.len(),
            trim_end(s@.subrange(a as int, b as int)) == trim_end(s@.subrange(a as int, to as int)),
        ensures
            a <= b <= to,
            s@.subrange(a as int, b as int) == trim_end(s@.subrange(a as int, to as int)),
        decreases b - a,
    {
        let k: usize = space_suffix(s, a, b);
        if k == 0 {
            break;
        }
        proof {
            let w = s@.subrange(a as int, b as int);
            assert(w.take(w.len() - k) =~= s@.subrange(a as int, b - k));
        }
        b = b - k;
    }
    (a, b)
}

/// Every byte of `s` is an ASCII byte.
pub open spec fn all_ascii(s: Seq<u8>) -> bool {
    forall|i: int| 0 <= i < s.len() ==> #[trigger] s[i] < 0x80
}

/// ASCII bytes are well-formed UTF-8.
pub proof fn lemma_ascii_is_utf8(s: Seq<u8>)
    requires
        all_ascii(s),
    ensures
        valid_utf8(s),
{
    assert(s.subrange(0, 0) =~= Seq::<u8>::empty());
    assert(valid_utf8(s.subrange(0, 0)));
    partial_valid_utf8_extend_ascii_block(s, 0, s.len() as int);
    assert(s.subrange(0, s.len() as int) =~= s);
}

/// Converts bytes to text with `std::str::from_utf8`. The conversion succeeds
/// exactly on well-formed UTF-8, and the text then encodes to the same bytes.
#[verifier::external_body]
pub(crate) fn utf8_text(bytes: &[u8]) -> (r: Option<&str>)
    ensures
        r is Some <==> valid_utf8(bytes@),
        r matches Some(s) ==> s.spec_bytes() == bytes@,
{
    std::str::from_utf8(bytes).ok()
}

} // verus!
