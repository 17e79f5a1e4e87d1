//! Splitting a line into words.
//!
//! A word is a maximal run of bytes that are not ASCII whitespace. Whitespace
//! only separates words and carries no meaning of its own.

use vstd::prelude::*;
use vstd::string::StringSliceAdditionalSpecFns;
use vstd::utf8::*;

verus! {

/// The ASCII whitespace bytes: space, horizontal tab, line feed, form feed
/// and carriage return.
pub open spec fn is_space(b: u8) -> bool {
    b == 0x20 || b == 0x09 || b == 0x0a || b == 0x0c || b == 0x0d
}

/// The first position at or after `i` that holds no whitespace byte, or the
/// end of `s`.
pub open spec fn skip_spaces(s: Seq<u8>, i: int) -> int
    decreases s.len() - i,
{
    if 0 <= i < s.len() && is_space(s[i]) {
        skip_spaces(s, i + 1)
    } else {
        i
    }
}

/// The first position at or after `i` that holds a whitespace byte, or the
/// end of `s`.
pub open spec fn skip_word(s: Seq<u8>, i: int) -> int
    decreases s.len() - i,
{
    if 0 <= i < s.len() && !is_space(s[i]) {
        skip_word(s, i + 1)
    } else {
        i
    }
}

/// The words of `s` that begin at or after position `i`, in order.
pub open spec fn words_from(s: Seq<u8>, i: int) -> Seq<Seq<u8>>
    decreases s.len() - i,
    via words_from_decreases
{
    let a = skip_spaces(s, i);
    let b = skip_word(s, a);
    if 0 <= i && a < s.len() {
        seq![s.subrange(a, b)] + words_from(s, b)
    } else {
        Seq::empty()
    }
}

#[via_fn]
proof fn words_from_decreases(s: Seq<u8>, i: int) {
    let a = skip_spaces(s, i);
    if 0 <= i && a < s.len() {
        lemma_skip_spaces(s, i);
        lemma_skip_word(s, a);
    }
}

/// The words of a line, in order.
pub open spec fn words(s: Seq<u8>) -> Seq<Seq<u8>> {
    words_from(s, 0)
}

/// The UTF-8 bytes of each of a sequence of string slices.
pub open spec fn bytes_of(ws: Seq<&str>) -> Seq<Seq<u8>> {
    ws.map_values(|w: &str| w.spec_bytes())
}

/// `skip_spaces` moves forward over whitespace only and stops before a byte
/// that is none.
pub proof fn lemma_skip_spaces(s: Seq<u8>, i: int)
    requires
        0 <= i <= s.len(),
    ensures
        i <= skip_spaces(s, i) <= s.len(),
        forall|k: int| i <= k < skip_spaces(s, i) ==> is_space(#[trigger] s[k]),
        skip_spaces(s, i) < s.len() ==> !is_space(s[skip_spaces(s, i)]),
    decreases s.len() - i,
{
    if i < s.len() && is_space(s[i]) {
        lemma_skip_spaces(s, i + 1);
    }
}

/// `skip_word` moves forward over bytes that are no whitespace and stops
/// before one that is; from such a byte it moves at least one step.
pub proof fn lemma_skip_word(s: Seq<u8>, i: int)
    requires
        0 <= i <= s.len(),
    ensures
        i <= skip_word(s, i) <= s.len(),
        forall|k: int| i <= k < skip_word(s, i) ==> !is_space(#[trigger] s[k]),
        skip_word(s, i) < s.len() ==> is_space(s[skip_word(s, i)]),
        i < s.len() && !is_space(s[i]) ==> i < skip_word(s, i),
    decreases s.len() - i,
{
    if i < s.len() && !is_space(s[i]) {
        lemma_skip_word(s, i + 1);
    }
}

/// In valid UTF-8 a position is a character boundary when it is an end of
/// the sequence or when an ASCII byte stands at it or just before it.
pub proof fn lemma_boundary_beside_ascii(bytes: Seq<u8>, i: int)
    requires
        valid_utf8(bytes),
        0 <= i <= bytes.len(),
        i == 0 || i == bytes.len() || bytes[i] <= 0x7f || bytes[i - 1] <= 0x7f,
    ensures
        is_char_boundary(bytes, i),
{
    is_char_boundary_start_end_of_seq(bytes);
    if 0 < i < bytes.len() {
        if bytes[i] <= 0x7f {
            is_char_boundary_iff_not_is_continuation_byte(bytes, i);
        } else {
            is_char_boundary_iff_not_is_continuation_byte(bytes, i - 1);
            valid_utf8_split(bytes, i - 1);
            let tail = bytes.subrange(i - 1, bytes.len() as int);
            assert(tail[0] == bytes[i - 1]);
            assert(is_leading_byte_width_1(tail[0]));
            let rest = pop_first_scalar(tail);
            assert(rest =~= bytes.subrange(i, bytes.len() as int));
            assert(valid_utf8(rest));
            assert(rest[0] == bytes[i]);
            assert(valid_first_scalar(rest));
            is_char_boundary_iff_not_is_continuation_byte(bytes, i);
        }
    }
}

/// Tells whether a byte is ASCII whitespace.
pub fn is_space_byte(b: u8) -> (r: bool)
    ensures
        r == is_space(b),
{
    b == 0x20 || b == 0x09 || b == 0x0a || b == 0x0c || b == 0x0d
}

/// Splits a line on ASCII whitespace into its words, in order. Each word is
/// a slice of the line.
pub fn split_words(line: &str) -> (r: Vec<&str>)
    ensures
        bytes_of(r@) == words(line.spec_bytes()),
{
    let bytes = line.as_bytes();
    let n = bytes.len();
    let mut out: Vec<&str> = Vec::new();
    let mut i: usize = 0;
    assert(bytes_of(out@) =~= Seq::<Seq<u8>>::empty());
    while i < n
        invariant
            bytes@ == line.spec_bytes(),
            n == bytes@.len(),
            i <= n,
            i == 0 || i == n || is_space(bytes@[i as int]),
            bytes_of(out@) + words_from(bytes@, i as int) == words(bytes@),
        decreases n - i,
    {
        let mut a = i;
        while a < n && is_space_byte(bytes[a])
            invariant
                n == bytes@.len(),
                i <= a <= n,
                skip_spaces(bytes@, a as int) == skip_spaces(bytes@, i as int),
            decreases n - a,
        {
            a += 1;
        }
        if a == n {
            i = n;
        } else {
            let mut b = a;
            while b < n && !is_space_byte(bytes[b])
                invariant
                    n == bytes@.len(),
                    a <= b <= n,
                    skip_word(bytes@, b as int) == skip_word(bytes@, a as int),
                decreases n - b,
            {
                b += 1;
            }
            proof {
                lemma_skip_spaces(bytes@, i as int);
                encode_utf8_valid_utf8(line@);
                lemma_boundary_beside_ascii(bytes@, b as int);
            }
            let (head, _) = line.split_at(b);
            proof {
                assert(head.spec_bytes().len() == b);
                if a > 0 {
                    assert(head.spec_bytes()[a - 1] == bytes@[a - 1]);
                    if a > i {
                        assert(is_space(bytes@[a - 1]));
                    }
                }
                encode_utf8_valid_utf8(head@);
                lemma_boundary_beside_ascii(head.spec_bytes(), a as int);
            }
            let (_, word) = head.split_at(a);
            proof {
                assert(word.spec_bytes() =~= bytes@.subrange(a as int, b as int));
                assert(bytes_of(out@.push(word)) =~= bytes_of(out@) + seq![word.spec_bytes()]);
                assert(words_from(bytes@, i as int) == seq![bytes@.subrange(a as int, b as int)]
                    + words_from(bytes@, b as int));
            }
            out.push(word);
            i = b;
        }
    }
    assert(words_from(bytes@, n as int) =~= Seq::<Seq<u8>>::empty());
    out
}

} // verus!
