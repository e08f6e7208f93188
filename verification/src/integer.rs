//! Reading a signed 64-bit integer from decimal text.

use vstd::prelude::*;
use crate::lexer::is_digit_char;

verus! {

/// The value of a decimal digit.
pub open spec fn digit_value(c: char) -> int {
    c as int - '0' as int
}

/// The number that a sequence of decimal digits denotes; leading zeros
/// count for nothing.
pub open spec fn decimal_value(digits: Seq<char>) -> int
    decreases digits.len(),
{
    if digits.len() == 0 {
        0
    } else {
        decimal_value(digits.drop_last()) * 10 + digit_value(digits.last())
    }
}

/// Whether every character of `text` is a decimal digit.
pub open spec fn all_digits(text: Seq<char>) -> bool {
    forall|i: int| 0 <= i < text.len() ==> is_digit_char(#[trigger] text[i])
}

/// Whether `text` starts with a sign.
pub open spec fn has_sign(text: Seq<char>) -> bool {
    text.len() > 0 && (text[0] == '-' || text[0] == '+')
}

/// The digits of `text`: what follows its sign, if it has one.
pub open spec fn unsigned_part(text: Seq<char>) -> Seq<char> {
    if has_sign(text) {
        text.skip(1)
    } else {
        text
    }
}

/// The number that `text` denotes, whatever its size: the value of its
/// digits, negated behind a minus sign.
pub open spec fn signed_value(text: Seq<char>) -> int {
    if text.len() > 0 && text[0] == '-' {
        -decimal_value(unsigned_part(text))
    } else {
        decimal_value(unsigned_part(text))
    }
}

/// The 64-bit integer that `text` denotes. There is one where `text` is an
/// optional sign followed by at least one decimal digit and nothing else,
/// and the number fits in 64 bits.
pub open spec fn integer_value(text: Seq<char>) -> Option<i64> {
    let digits = unsigned_part(text);
    if digits.len() > 0 && all_digits(digits) && i64::MIN <= signed_value(text) <= i64::MAX {
        Some(signed_value(text) as i64)
    } else {
        None
    }
}

/// Reads `text` as a signed 64-bit integer in decimal notation.
pub fn parse_integer(text: &str) -> (value: Option<i64>)
    ensures
        value == integer_value(text@),
{
    let n: usize = text.unicode_len();
    if n == 0 {
        return None;
    }
    let first = text.get_char(0);
    let negative = first == '-';
    let start: usize = if first == '-' || first == '+' {
        1
    } else {
        0
    };
    if start == n {
        return None;
    }
    let ghost digits = unsigned_part(text@);
    let mut magnitude: u64 = 0;
    let mut i: usize = start;
    while i < n
        invariant
            n == text@.len(),
            start <= i <= n,
            digits == unsigned_part(text@),
            digits.len() == n - start,
            forall|k: int| 0 <= k < digits.len() ==> digits[k] == text@[k + start],
            all_digits(digits.take(i - start)),
            magnitude == decimal_value(digits.take(i - start)),
            magnitude <= 0x8000_0000_0000_0000,
        decreases n - i,
    {
        let c = text.get_char(i);
        let ghost before = digits.take(i - start);
        let ghost after = digits.take(i + 1 - start);
        proof {
            assert(after.drop_last() == before);
            assert(after.last() == c);
        }
        if !('0' <= c && c <= '9') {
            assert(!is_digit_char(digits[i - start]));
            return None;
        }
        let digit: u64 = (c as u32 - '0' as u32) as u64;
        if magnitude > 922_337_203_685_477_580 || magnitude * 10 + digit > 0x8000_0000_0000_0000 {
            proof {
                if all_digits(digits) {
                    lemma_decimal_value_grows(digits, i + 1 - start);
                }
            }
            return None;
        }
        magnitude = magnitude * 10 + digit;
        i += 1;
    }
    assert(digits.take(n - start) == digits);
    if negative {
        if magnitude == 0x8000_0000_0000_0000 {
            Some(i64::MIN)
        } else {
            Some(-(magnitude as i64))
        }
    } else if magnitude == 0x8000_0000_0000_0000 {
        None
    } else {
        Some(magnitude as i64)
    }
}

/// Further digits never make a number smaller: a prefix of a sequence of
/// digits denotes at most what the whole sequence denotes.
pub proof fn lemma_decimal_value_grows(digits: Seq<char>, k: int)
    requires
        0 <= k <= digits.len(),
        all_digits(digits),
    ensures
        0 <= decimal_value(digits.take(k)) <= decimal_value(digits),
    decreases digits.len() - k,
{
    lemma_decimal_value_nonnegative(digits.take(k));
    if k < digits.len() {
        let longer = digits.take(k + 1);
        assert(longer.drop_last() == digits.take(k));
        assert(longer.last() == digits[k]);
        lemma_decimal_value_grows(digits, k + 1);
    } else {
        assert(digits.take(k) == digits);
    }
}

/// A sequence of digits denotes no negative number.
pub proof fn lemma_decimal_value_nonnegative(digits: Seq<char>)
    requires
        all_digits(digits),
    ensures
        0 <= decimal_value(digits),
    decreases digits.len(),
{
    if digits.len() > 0 {
        lemma_decimal_value_nonnegative(digits.drop_last());
    }
}

} // verus!
