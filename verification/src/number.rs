//! Unsigned decimal numbers as they stand in header values.

use crate::error::IntegerFault;
use vstd::prelude::*;
use vstd::string::is_ascii_spec_bytes;
use vstd::string::StringSliceAdditionalSpecFns;

verus! {

const PLUS: u8 = 0x2b;

const ZERO: u8 = 0x30;

const NINE: u8 = 0x39;

/// Whether `c` is one of the ten decimal digits.
pub open spec fn is_digit(c: char) -> bool {
    '0' <= c && c <= '9'
}

/// The number that the digit `c` stands for.
pub open spec fn digit_value(c: char) -> nat {
    (c as nat - '0' as nat) as nat
}

/// The number that a run of digits stands for, the most significant first.
pub open spec fn digits_value(digits: Seq<char>) -> nat
    decreases digits.len(),
{
    if digits.len() == 0 {
        0
    } else {
        digits_value(digits.drop_last()) * 10 + digit_value(digits.last())
    }
}

/// Whether every character of `text` is a decimal digit.
pub open spec fn all_digits(text: Seq<char>) -> bool {
    forall|i: int| 0 <= i < text.len() ==> is_digit(#[trigger] text[i])
}

/// `text` without the one plus sign that may lead it.
pub open spec fn unsigned_part(text: Seq<char>) -> Seq<char> {
    if text.len() > 0 && text[0] == '+' {
        text.drop_first()
    } else {
        text
    }
}

/// The number that `text` denotes: an optional plus sign, then one or more
/// digits whose value fits in 64 bits. Every other text has a fault.
pub open spec fn decimal(text: Seq<char>) -> Result<u64, IntegerFault> {
    let digits = unsigned_part(text);
    if text.len() == 0 {
        Err(IntegerFault::Empty)
    } else if digits.len() == 0 || !all_digits(digits) {
        Err(IntegerFault::InvalidDigit)
    } else if digits_value(digits) > u64::MAX {
        Err(IntegerFault::Overflow)
    } else {
        Ok(digits_value(digits) as u64)
    }
}

/// Reads the characters of `text` from `from` up to `to` as a number.
pub(crate) fn decimal_between(text: &str, from: usize, to: usize) -> (number: Result<
    u64,
    IntegerFault,
>)
    requires
        text.is_ascii(),
        from <= to <= text@.len(),
    ensures
        number == decimal(text@.subrange(from as int, to as int)),
{
    broadcast use is_ascii_spec_bytes;

    let bytes = text.as_bytes();
    let ghost part = text@.subrange(from as int, to as int);
    let ghost digits = unsigned_part(part);
    if from == to {
        return Err(IntegerFault::Empty);
    }
    let first: usize = if bytes[from] == PLUS { from + 1 } else { from };
    if first == to {
        return Err(IntegerFault::InvalidDigit);
    }
    let mut i: usize = first;
    let mut value: u64 = 0;
    let mut overflow = false;
    while i < to
        invariant
            text.is_ascii(),
            bytes@ == text.spec_bytes(),
            first <= i <= to <= text@.len(),
            from < to,
            part == text@.subrange(from as int, to as int),
            digits == unsigned_part(part),
            digits == text@.subrange(first as int, to as int),
            all_digits(digits.take(i - first)),
            !overflow ==> value == digits_value(digits.take(i - first)),
            overflow ==> digits_value(digits.take(i - first)) > u64::MAX,
        decreases to - i,
    {
        let b = bytes[i];
        if b < ZERO || b > NINE {
            assert(!is_digit(digits[i - first]));
            return Err(IntegerFault::InvalidDigit);
        }
        assert(digits.take(i - first + 1).drop_last() == digits.take(i - first));
        let d: u64 = (b - ZERO) as u64;
        if !overflow {
            if value > (u64::MAX - d) / 10 {
                overflow = true;
            } else {
                value = value * 10 + d;
            }
        }
        i = i + 1;
    }
    assert(digits.take(to - first) == digits);
    if overflow {
        Err(IntegerFault::Overflow)
    } else {
        Ok(value)
    }
}

/// Reads `text` as an unsigned decimal number of 64 bits.
pub fn parse_decimal(text: &str) -> (number: Result<u64, IntegerFault>)
    ensures
        number == decimal(text@),
{
    if text.is_ascii() {
        broadcast use is_ascii_spec_bytes;

        let n = text.as_bytes().len();
        assert(text@.subrange(0, n as int) == text@);
        decimal_between(text, 0, n)
    } else {
        proof {
            let i = choose|i: int|
                0 <= i < text@.len() && !('\0' <= #[trigger] text@[i] <= '\u{7f}');
            if i > 0 && text@[0] == '+' {
                assert(unsigned_part(text@)[i - 1] == text@[i]);
            }
        }
        Err(IntegerFault::InvalidDigit)
    }
}

} // verus!
