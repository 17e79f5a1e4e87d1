//! Signed decimal integers as text: reading a literal and writing a value.

use vstd::prelude::*;
use vstd::string::StringExecFns;
use vstd::utf8::{encode_utf8, is_ascii_chars, is_ascii_chars_encode_utf8};

verus! {

/// The byte of the minus sign.
pub const MINUS: u8 = 0x2d;

/// The byte of the digit zero.
pub const ZERO: u8 = 0x30;

/// The ASCII decimal digits.
pub open spec fn is_digit(b: u8) -> bool {
    0x30 <= b <= 0x39
}

/// Every byte of `d` is a decimal digit.
pub open spec fn all_digits(d: Seq<u8>) -> bool {
    forall|i: int| 0 <= i < d.len() ==> is_digit(#[trigger] d[i])
}

/// The number that a run of decimal digits denotes, most significant digit
/// first. Leading zeros do not count.
pub open spec fn digits_value(d: Seq<u8>) -> nat
    decreases d.len(),
{
    if d.len() == 0 {
        0
    } else {
        digits_value(d.drop_last()) * 10 + (d.last() - 0x30) as nat
    }
}

/// The text begins with a minus sign.
pub open spec fn is_negative(t: Seq<u8>) -> bool {
    t.len() > 0 && t[0] == 0x2d
}

/// The text without its minus sign, if it has one.
pub open spec fn digits_part(t: Seq<u8>) -> Seq<u8> {
    if is_negative(t) {
        t.drop_first()
    } else {
        t
    }
}

/// The text is an integer literal: an optional minus sign, then one or more
/// decimal digits and nothing else.
pub open spec fn is_literal(t: Seq<u8>) -> bool {
    digits_part(t).len() > 0 && all_digits(digits_part(t))
}

/// The integer that a literal denotes, of whatever size.
pub open spec fn literal_value(t: Seq<u8>) -> int {
    if is_negative(t) {
        -(digits_value(digits_part(t)) as int)
    } else {
        digits_value(digits_part(t)) as int
    }
}

/// The 32-bit value of a text: that of the literal it is, if it is one and
/// its value lies within the signed 32-bit range.
pub open spec fn int_value(t: Seq<u8>) -> Option<i32> {
    if is_literal(t) && i32::MIN <= literal_value(t) <= i32::MAX {
        Some(literal_value(t) as i32)
    } else {
        None
    }
}

/// Reads a signed decimal literal of any length. Text that is no literal, or
/// whose value does not fit in 32 bits, gives `None`.
pub fn parse_int(text: &[u8]) -> (r: Option<i32>)
    ensures
        r == int_value(text@),
{
    let n = text.len();
    let negative = n > 0 && text[0] == MINUS;
    let first: usize = if negative {
        1
    } else {
        0
    };
    if first == n {
        return None;
    }
    let ghost digits = digits_part(text@);
    assert(digits =~= text@.subrange(first as int, n as int));
    let mut acc: i64 = 0;
    let mut too_large = false;
    let mut i: usize = first;
    while i < n
        invariant
            n == text@.len(),
            first <= i <= n,
            digits == digits_part(text@),
            digits == text@.subrange(first as int, n as int),
            all_digits(digits.take(i - first)),
            !too_large ==> acc == digits_value(digits.take(i - first)) && 0 <= acc <= 0x8000_0000,
            too_large ==> digits_value(digits.take(i - first)) > 0x8000_0000,
        decreases n - i,
    {
        let b = text[i];
        if b < ZERO || b > ZERO + 9 {
            assert(digits[i - first] == b);
            assert(!all_digits(digits));
            return None;
        }
        proof {
            let next = digits.take(i - first + 1);
            assert(next.drop_last() =~= digits.take(i - first));
            assert(next.last() == b);
        }
        if !too_large {
            acc = acc * 10 + (b - ZERO) as i64;
            if acc > 0x8000_0000 {
                too_large = true;
            }
        }
        i += 1;
    }
    assert(digits.take(n - first) =~= digits);
    if too_large {
        return None;
    }
    if negative {
        Some((-acc) as i32)
    } else if acc > 0x7fff_ffff {
        None
    } else {
        Some(acc as i32)
    }
}

/// The character of a decimal digit.
pub open spec fn digit_char(d: nat) -> char {
    ((0x30 + d) as u8) as char
}

/// The decimal digits of a natural number, most significant first, with no
/// leading zero; zero is the single digit `0`.
pub open spec fn nat_text(n: nat) -> Seq<char>
    decreases n,
{
    if n < 10 {
        seq![digit_char(n)]
    } else {
        nat_text(n / 10).push(digit_char(n % 10))
    }
}

/// An integer in decimal: a minus sign where it is negative, then the digits
/// of its magnitude.
pub open spec fn int_text(v: int) -> Seq<char> {
    if v < 0 {
        seq!['-'] + nat_text((-v) as nat)
    } else {
        nat_text(v as nat)
    }
}

/// The digits written for a natural number are ASCII, and read as digits
/// they denote that number.
pub proof fn lemma_nat_text_reads_back(n: nat)
    ensures
        is_ascii_chars(nat_text(n)),
        encode_utf8(nat_text(n)).len() > 0,
        all_digits(encode_utf8(nat_text(n))),
        digits_value(encode_utf8(nat_text(n))) == n,
    decreases n,
{
    let text = nat_text(n);
    let bytes = encode_utf8(text);
    if n < 10 {
        is_ascii_chars_encode_utf8(text);
        assert(bytes.last() == 0x30 + n);
        assert(digits_value(bytes.drop_last()) == 0);
    } else {
        let front = nat_text(n / 10);
        lemma_nat_text_reads_back(n / 10);
        assert(is_ascii_chars(text)) by {
            assert forall|i: int| 0 <= i < text.len() implies '\0' <= #[trigger] text[i]
                <= '\u{7f}' by {
                if i < front.len() {
                    assert(text[i] == front[i]);
                }
            }
        }
        is_ascii_chars_encode_utf8(text);
        is_ascii_chars_encode_utf8(front);
        assert(bytes.drop_last() =~= encode_utf8(front)) by {
            assert forall|i: int| 0 <= i < front.len() implies bytes.drop_last()[i]
                == encode_utf8(front)[i] by {
                assert(text[i] == front[i]);
            }
        }
        assert(bytes.last() == 0x30 + n % 10) by {
            assert(text.last() == digit_char(n % 10));
        }
        assert(all_digits(bytes)) by {
            assert forall|i: int| 0 <= i < bytes.len() implies is_digit(#[trigger] bytes[i]) by {
                if i < front.len() {
                    assert(bytes[i] == bytes.drop_last()[i]);
                }
            }
        }
    }
}

/// Reading back what was written: the decimal text of a 32-bit integer is a
/// literal whose value is that integer.
pub proof fn lemma_int_text_reads_back(v: i32)
    ensures
        is_ascii_chars(int_text(v as int)),
        int_value(encode_utf8(int_text(v as int))) == Some(v),
{
    let text = int_text(v as int);
    let bytes = encode_utf8(text);
    if v < 0 {
        let digits = nat_text((-v) as nat);
        lemma_nat_text_reads_back((-v) as nat);
        assert(is_ascii_chars(text)) by {
            assert forall|i: int| 0 <= i < text.len() implies '\0' <= #[trigger] text[i]
                <= '\u{7f}' by {
                if i > 0 {
                    assert(text[i] == digits[i - 1]);
                }
            }
        }
        is_ascii_chars_encode_utf8(text);
        is_ascii_chars_encode_utf8(digits);
        assert(bytes[0] == 0x2d);
        assert(bytes.drop_first() =~= encode_utf8(digits)) by {
            assert forall|i: int| 0 <= i < digits.len() implies bytes.drop_first()[i]
                == encode_utf8(digits)[i] by {
                assert(text[i + 1] == digits[i]);
            }
        }
    } else {
        lemma_nat_text_reads_back(v as nat);
        assert(is_digit(bytes[0]));
    }
}

/// The text of one decimal digit.
fn digit_str(d: u32) -> (r: &'static str)
    requires
        d < 10,
    ensures
        r@ == seq![digit_char(d as nat)],
{
    proof {
        reveal_strlit("0");
        reveal_strlit("1");
        reveal_strlit("2");
        reveal_strlit("3");
        reveal_strlit("4");
        reveal_strlit("5");
        reveal_strlit("6");
        reveal_strlit("7");
        reveal_strlit("8");
        reveal_strlit("9");
    }
    let r = match d {
        0 => "0",
        1 => "1",
        2 => "2",
        3 => "3",
        4 => "4",
        5 => "5",
        6 => "6",
        7 => "7",
        8 => "8",
        _ => "9",
    };
    assert(r@ =~= seq![digit_char(d as nat)]);
    r
}

/// Appends the decimal digits of `n` to `text`.
fn push_nat(n: u32, text: &mut String)
    ensures
        final(text)@ == old(text)@ + nat_text(n as nat),
    decreases n,
{
    if n >= 10 {
        push_nat(n / 10, text);
    }
    text.append(digit_str(n % 10));
    assert(final(text)@ =~= old(text)@ + nat_text(n as nat));
}

/// Writes a 32-bit integer in decimal.
pub fn format_int(v: i32) -> (r: String)
    ensures
        r@ == int_text(v as int),
{
    let mut text = String::new();
    if v < 0 {
        proof {
            reveal_strlit("-");
        }
        text.append("-");
        assert(text@ =~= seq!['-']);
        push_nat((-(v as i64)) as u32, &mut text);
    } else {
        push_nat(v as u32, &mut text);
        assert(text@ =~= nat_text(v as nat));
    }
    text
}

} // verus!
