//! Decimal numbers as they appear in header values: reading a length from
//! bytes, and writing one as text.

use crate::bytes::{all_digits, is_digit};
use vstd::prelude::*;
use vstd::string::StringExecFns;
use vstd::utf8::{encode_utf8, is_ascii_chars, is_ascii_chars_encode_utf8};

verus! {

/// The number that a string of decimal digits denotes.
pub open spec fn digits_value(s: Seq<u8>) -> nat
    decreases s.len(),
{
    if s.len() == 0 {
        0
    } else {
        digits_value(s.drop_last()) * 10 + (s.last() - 0x30) as nat
    }
}

/// The digits of a number text: the text itself, or what follows its
/// leading plus sign.
pub open spec fn unsigned_part(s: Seq<u8>) -> Seq<u8> {
    if s.len() > 0 && s[0] == 0x2B {
        s.skip(1)
    } else {
        s
    }
}

/// The length that a header value denotes: an optional plus sign followed by
/// at least one decimal digit, with a value that fits the machine word.
pub open spec fn parse_decimal(s: Seq<u8>) -> Option<usize> {
    let d = unsigned_part(s);
    if d.len() > 0 && all_digits(d) && digits_value(d) <= usize::MAX {
        Some(digits_value(d) as usize)
    } else {
        None
    }
}

/// A prefix of a digit string denotes no more than the whole string.
pub proof fn lemma_digits_value_prefix(s: Seq<u8>, k: int)
    requires
        0 <= k <= s.len(),
        all_digits(s),
    ensures
        digits_value(s.take(k)) <= digits_value(s),
    decreases s.len() - k,
{
    if k == s.len() {
        assert(s.take(k) =~= s);
    } else {
        lemma_digits_value_prefix(s, k + 1);
        let t = s.take(k + 1);
        assert(t.drop_last() =~= s.take(k));
        assert(is_digit(s[k]));
        assert(t.last() == s[k]);
    }
}

/// Reads a length from the bytes of a header value.
pub fn read_decimal(s: &[u8]) -> (r: Option<usize>)
    ensures
        r == parse_decimal(s@),
{
    let n: usize = s.len();
    let start: usize = if n > 0 && s[0] == 0x2B { 1 } else { 0 };
    let ghost d = unsigned_part(s@);
    assert(d =~= s@.subrange(start as int, n as int));
    if start == n {
        return None;
    }
    let mut acc: usize = 0;
    let mut i: usize = start;
    while i < n
        invariant
            start <= i <= n == s@.len(),
            d == unsigned_part(s@),
            d == s@.subrange(start as int, n as int),
            all_digits(d.take(i - start)),
            acc == digits_value(d.take(i - start)),
        decreases n - i,
    {
        let b: u8 = s[i];
        if b < 0x30 || b > 0x39 {
            assert(d[i - start] == b);
            return None;
        }
        let digit: usize = (b - 0x30) as usize;
        let ghost next = d.take(i - start + 1);
        proof {
            assert(next.drop_last() =~= d.take(i - start));
            assert(next.last() == b);
            assert forall|j: int| 0 <= j < next.len() implies is_digit(#[trigger] next[j]) by {
                if j < i - start {
                    assert(d.take(i - start)[j] == next[j]);
                }
            }
        }
        if acc > (usize::MAX - digit) / 10 {
            proof {
                assert(digits_value(next) > usize::MAX);
                if all_digits(d) {
                    lemma_digits_value_prefix(d, i - start + 1);
                }
            }
            return None;
        }
        acc = acc * 10 + digit;
        i = i + 1;
    }
    assert(d.take(n - start) =~= d);
    Some(acc)
}

/// The character of a decimal digit.
pub open spec fn digit_char(d: nat) -> char {
    if d == 0 {
        '0'
    } else if d == 1 {
        '1'
    } else if d == 2 {
        '2'
    } else if d == 3 {
        '3'
    } else if d == 4 {
        '4'
    } else if d == 5 {
        '5'
    } else if d == 6 {
        '6'
    } else if d == 7 {
        '7'
    } else if d == 8 {
        '8'
    } else {
        '9'
    }
}

/// A number written in decimal, without sign or leading zeros.
pub open spec fn decimal_text(n: nat) -> Seq<char>
    decreases n,
{
    if n < 10 {
        seq![digit_char(n)]
    } else {
        decimal_text(n / 10).push(digit_char(n % 10))
    }
}

/// The text of one decimal digit.
fn digit_text(d: usize) -> (r: &'static str)
    requires
        d < 10,
    ensures
        r@ == seq![digit_char(d as nat)],
{
    proof {
        reveal_strlit("0");
        reveal_strlit("1");
        reveal_strlit("2");
        reveal_strlit("3");
        reveal_strlit("4");
        reveal_strlit("5");
        reveal_strlit("6");
        reveal_strlit("7");
        reveal_strlit("8");
        reveal_strlit("9");
    }
    let r = if d == 0 {
        "0"
    } else if d == 1 {
        "1"
    } else if d == 2 {
        "2"
    } else if d == 3 {
        "3"
    } else if d == 4 {
        "4"
    } else if d == 5 {
        "5"
    } else if d == 6 {
        "6"
    } else if d == 7 {
        "7"
    } else if d == 8 {
        "8"
    } else {
        "9"
    };
    assert(r@ =~= seq![digit_char(d as nat)]);
    r
}

/// The text of a number is what its leading part is, followed by a suffix
/// already written.
spec fn text_with_suffix(n: nat, suffix: Seq<char>) -> Seq<char> {
    decimal_text(n) + suffix
}

/// Writes a number in decimal.
pub fn decimal_string(n: usize) -> (r: String)
    ensures
        r@ == decimal_text(n as nat),
{
    let mut rest: usize = n;
    let mut out: String = String::from_str(digit_text(rest % 10));
    rest = rest / 10;
    proof {
        if n < 10 {
            assert(out@ =~= decimal_text(n as nat));
        } else {
            assert(decimal_text(n as nat) =~= text_with_suffix(rest as nat, out@));
        }
    }
    while rest > 0
        invariant
            rest == 0 ==> out@ == decimal_text(n as nat),
            rest > 0 ==> decimal_text(n as nat) == text_with_suffix(rest as nat, out@),
        decreases rest,
    {
        let head: String = String::from_str(digit_text(rest % 10));
        let ghost before = out@;
        let ghost r0 = rest as nat;
        out = head.concat(out.as_str());
        rest = rest / 10;
        proof {
            if r0 < 10 {
                assert(out@ =~= decimal_text(r0) + before);
            } else {
                assert(decimal_text(r0) + before =~= decimal_text(r0 / 10) + out@);
            }
        }
    }
    out
}

/// Every character of a number written in decimal is a digit.
pub proof fn lemma_decimal_text_digits(n: nat)
    ensures
        decimal_text(n).len() > 0,
        forall|i: int|
            0 <= i < decimal_text(n).len() ==> '0' <= #[trigger] decimal_text(n)[i] <= '9',
    decreases n,
{
    if n >= 10 {
        lemma_decimal_text_digits(n / 10);
    }
}

/// The UTF-8 bytes of a number written in decimal: its digits, one byte each.
pub proof fn lemma_decimal_text_bytes(n: nat)
    ensures
        encode_utf8(decimal_text(n)).len() == decimal_text(n).len(),
        all_digits(encode_utf8(decimal_text(n))),
        digits_value(encode_utf8(decimal_text(n))) == n,
    decreases n,
{
    let t = decimal_text(n);
    lemma_decimal_text_digits(n);
    assert(is_ascii_chars(t));
    is_ascii_chars_encode_utf8(t);
    let e = encode_utf8(t);
    assert forall|i: int| 0 <= i < e.len() implies is_digit(#[trigger] e[i]) by {
        assert(t[i] as u8 == e[i]);
    }
    if n < 10 {
        assert(e.drop_last().len() == 0);
        assert(t[0] as u8 == e[0]);
        assert(digits_value(e.drop_last()) == 0);
    } else {
        let head = decimal_text(n / 10);
        lemma_decimal_text_bytes(n / 10);
        lemma_decimal_text_digits(n / 10);
        assert(is_ascii_chars(head));
        is_ascii_chars_encode_utf8(head);
        let eh = encode_utf8(head);
        assert(e.drop_last() =~= eh) by {
            assert forall|i: int| 0 <= i < eh.len() implies e.drop_last()[i] == eh[i] by {
                assert(t[i] as u8 == e[i]);
                assert(head[i] as u8 == eh[i]);
                assert(t[i] == head[i]);
            }
        }
        assert(t[t.len() - 1] as u8 == e[t.len() - 1]);
        assert(e.last() == 0x30 + n % 10);
    }
}

/// Reading what was written gives the number back.
pub proof fn lemma_decimal_round_trip(n: usize)
    ensures
        parse_decimal(encode_utf8(decimal_text(n as nat))) == Some(n),
{
    lemma_decimal_text_bytes(n as nat);
    lemma_decimal_text_digits(n as nat);
    let e = encode_utf8(decimal_text(n as nat));
    assert(is_digit(e[0]));
    assert(unsigned_part(e) == e);
}

} // verus!
