//! Decimal numbers in header values.

use crate::text::decimal;
use vstd::prelude::*;

verus! {

/// Whether `b` is an ASCII decimal digit.
pub open spec fn is_digit(b: u8) -> bool {
    48 <= b <= 57
}

/// The number of ASCII digits that `s` starts with.
pub open spec fn digit_run(s: Seq<u8>) -> nat
    decreases s.len(),
{
    if s.len() > 0 && is_digit(s[0]) {
        1 + digit_run(s.skip(1))
    } else {
        0
    }
}

/// The number that a string of ASCII digits denotes in base ten.
pub open spec fn digits_value(s: Seq<u8>) -> nat
    decreases s.len(),
{
    if s.len() == 0 {
        0
    } else {
        digits_value(s.drop_last()) * 10 + (s.last() - 48) as nat
    }
}

/// The number that `text` starts with, read as a `u32`.
///
/// A single `+` or `-` may come first; then the longest run of ASCII digits
/// counts, and whatever follows it is ignored. There is no number where `text`
/// starts with neither a sign nor a digit, where the digits exceed `u32::MAX`,
/// or where a `-` is followed by a digit other than `0`. A sign with no digit
/// behind it counts as zero.
pub open spec fn leading_u32(text: Seq<u8>) -> Option<u32> {
    let signed = text.len() > 0 && (text[0] == 43 || text[0] == 45);
    let negative = text.len() > 0 && text[0] == 45;
    let rest = if signed {
        text.skip(1)
    } else {
        text
    };
    let digits = rest.take(digit_run(rest) as int);
    let value = digits_value(digits);
    if !signed && digits.len() == 0 {
        None
    } else if negative {
        if value == 0 {
            Some(0u32)
        } else {
            None
        }
    } else if value <= u32::MAX {
        Some(value as u32)
    } else {
        None
    }
}

/// The decimal digits of a number are digits, and denote that number.
pub proof fn lemma_decimal_digits(n: nat)
    ensures
        decimal(n).len() >= 1,
        forall|i: int| 0 <= i < decimal(n).len() ==> is_digit(#[trigger] decimal(n)[i]),
        digits_value(decimal(n)) == n,
    decreases n,
{
    if n >= 10 {
        lemma_decimal_digits(n / 10);
        let head = decimal(n / 10);
        let all = decimal(n);
        assert(all.drop_last() =~= head);
        assert forall|i: int| 0 <= i < all.len() implies is_digit(#[trigger] all[i]) by {}
    } else {
        let all = decimal(n);
        assert(digits_value(all) == digits_value(all.drop_last()) * 10 + (all.last() - 48) as nat);
    }
}

/// A string of digits is its own leading run of digits.
pub proof fn lemma_digit_run_of_digits(s: Seq<u8>)
    requires
        forall|i: int| 0 <= i < s.len() ==> is_digit(#[trigger] s[i]),
    ensures
        digit_run(s) == s.len(),
    decreases s.len(),
{
    if s.len() > 0 {
        let rest = s.skip(1);
        assert forall|i: int| 0 <= i < rest.len() implies is_digit(#[trigger] rest[i]) by {}
        lemma_digit_run_of_digits(rest);
    }
}

/// A length written in decimal is read back as the same number, as far as
/// it fits a `u32`.
pub proof fn lemma_decimal_reads_back(n: nat)
    requires
        n <= u32::MAX,
    ensures
        leading_u32(decimal(n)) == Some(n as u32),
{
    let text = decimal(n);
    lemma_decimal_digits(n);
    lemma_digit_run_of_digits(text);
    assert(text.take(text.len() as int) =~= text);
}

/// Reads the number that `text` starts with by calling `atoi::atoi::<u32>`.
///
/// Trusted: the contract restates that function's behaviour as `leading_u32`
/// describes it: an optional sign, the longest run of digits, trailing bytes
/// ignored, `None` on overflow, on a negative value and where no sign or digit
/// comes first.
#[verifier::external_body]
pub(crate) fn atoi_u32(text: &[u8]) -> (r: Option<u32>)
    ensures
        r == leading_u32(text@),
{
    atoi::atoi::<u32>(text)
}

/// The body length that the value of a `Content-Length` header declares.
pub fn declared_length(value: &[u8]) -> (r: Option<usize>)
    ensures
        r == match leading_u32(value@) {
            Some(n) => Some(n as usize),
            None => None,
        },
{
    match atoi_u32(value) {
        Some(n) => Some(n as usize),
        None => None,
    }
}

} // verus!
