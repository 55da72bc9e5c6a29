//! Unsigned decimal numbers in ASCII text.
//!
//! A number is an optional `+` followed by one or more decimal digits; leading
//! zeros are allowed. Nothing else is a number: no sign `-`, no blanks, no
//! empty text.

use vstd::prelude::*;

verus! {

/// The byte `+`.
pub const PLUS: u8 = 43;

/// The byte `.`.
pub const DOT: u8 = 46;

/// The byte `0`.
pub const ZERO: u8 = 48;

/// The byte `9`.
pub const NINE: u8 = 57;

/// Whether `b` is one of the bytes `0` to `9`.
pub open spec fn is_digit(b: u8) -> bool {
    ZERO <= b <= NINE
}

/// Whether every byte of `s` is a decimal digit.
pub open spec fn all_digits(s: Seq<u8>) -> bool {
    forall|i: int| 0 <= i < s.len() ==> is_digit(#[trigger] s[i])
}

/// The number that the digits `s` denote, most significant digit first.
pub open spec fn digits_value(s: Seq<u8>) -> nat
    decreases s.len(),
{
    if s.len() == 0 {
        0
    } else {
        digits_value(s.drop_last()) * 10 + (s.last() - ZERO) as nat
    }
}

/// `s` without its leading `+`, if it has one.
pub open spec fn unsigned_digits(s: Seq<u8>) -> Seq<u8> {
    if s.len() > 0 && s[0] == PLUS {
        s.skip(1)
    } else {
        s
    }
}

/// The 16-bit number that the text `s` denotes, or `None` where `s` is no
/// number or the number does not fit.
pub open spec fn decimal_u16(s: Seq<u8>) -> Option<u16> {
    let d = unsigned_digits(s);
    if d.len() > 0 && all_digits(d) && digits_value(d) <= u16::MAX {
        Some(digits_value(d) as u16)
    } else {
        None
    }
}

/// A number never shrinks when digits are appended: every prefix of a digit
/// string denotes at most what the whole string denotes.
pub proof fn lemma_digits_value_prefix(s: Seq<u8>, k: int)
    requires
        all_digits(s),
        0 <= k <= s.len(),
    ensures
        digits_value(s.take(k)) <= digits_value(s),
    decreases s.len() - k,
{
    if k == s.len() {
        assert(s.take(k) =~= s);
    } else {
        lemma_digits_value_prefix(s, k + 1);
        let longer = s.take(k + 1);
        assert(longer.drop_last() =~= s.take(k));
        assert(is_digit(s[k]));
        assert(longer.last() == s[k]);
    }
}

/// Text that denotes a number holds no dot.
pub proof fn lemma_number_has_no_dot(s: Seq<u8>)
    requires
        decimal_u16(s) is Some,
    ensures
        forall|i: int| 0 <= i < s.len() ==> #[trigger] s[i] != DOT,
{
    let d = unsigned_digits(s);
    assert forall|i: int| 0 <= i < s.len() implies #[trigger] s[i] != DOT by {
        if s[0] == PLUS {
            if i > 0 {
                assert(d[i - 1] == s[i]);
                assert(is_digit(d[i - 1]));
            }
        } else {
            assert(d[i] == s[i]);
            assert(is_digit(d[i]));
        }
    }
}

/// Reads the number that `bytes[start..end]` denotes.
pub fn parse_u16_in(bytes: &[u8], start: usize, end: usize) -> (r: Option<u16>)
    requires
        start <= end <= bytes@.len(),
    ensures
        r == decimal_u16(bytes@.subrange(start as int, end as int)),
{
    let ghost text = bytes@.subrange(start as int, end as int);
    let mut first: usize = start;
    if start < end && bytes[start] == PLUS {
        first = start + 1;
    }
    let ghost digits = bytes@.subrange(first as int, end as int);
    assert(digits =~= unsigned_digits(text));
    if first == end {
        return None;
    }
    let mut value: u32 = 0;
    let mut i: usize = first;
    while i < end
        invariant
            start <= first <= i <= end <= bytes@.len(),
            digits == bytes@.subrange(first as int, end as int),
            digits == unsigned_digits(bytes@.subrange(start as int, end as int)),
            all_digits(digits.take(i - first)),
            value == digits_value(digits.take(i - first)),
            value <= u16::MAX,
        decreases end - i,
    {
        let b: u8 = bytes[i];
        assert(digits[i - first] == b);
        if b < ZERO || b > NINE {
            assert(!is_digit(digits[i - first]));
            return None;
        }
        let ghost longer = digits.take(i - first + 1);
        assert(longer.drop_last() =~= digits.take(i - first));
        assert(longer.last() == b);
        assert forall|j: int| 0 <= j < longer.len() implies is_digit(#[trigger] longer[j]) by {
            if j < i - first {
                assert(digits.take(i - first)[j] == longer[j]);
            }
        }
        let next: u32 = value * 10 + (b - ZERO) as u32;
        if next > 65535 {
            proof {
                if all_digits(digits) {
                    lemma_digits_value_prefix(digits, i - first + 1);
                }
            }
            return None;
        }
        value = next;
        i = i + 1;
    }
    assert(digits.take(i - first) =~= digits);
    Some(value as u16)
}

/// Reads the number that `bytes` denotes.
pub fn parse_u16(bytes: &[u8]) -> (r: Option<u16>)
    ensures
        r == decimal_u16(bytes@),
{
    assert(bytes@.subrange(0, bytes@.len() as int) =~= bytes@);
    parse_u16_in(bytes, 0, bytes.len())
}

} // verus!
