//! Reading a number from text.

use vstd::prelude::*;
use vstd::string::*;
use vstd::utf8::*;

verus! {

/// One of the digits `0` to `9`.
pub open spec fn is_digit(c: char) -> bool {
    '0' <= c <= '9'
}

/// What a digit counts for.
pub open spec fn digit_value(c: char) -> nat
    recommends
        is_digit(c),
{
    (c as u32 - '0' as u32) as nat
}

/// Every character of `text` is a digit.
pub open spec fn all_digits(text: Seq<char>) -> bool {
    forall|i: int| 0 <= i < text.len() ==> is_digit(#[trigger] text[i])
}

/// The number that a sequence of digits writes in base ten; 0 for the empty
/// sequence.
pub open spec fn decimal_value(digits: Seq<char>) -> nat
    decreases digits.len(),
{
    if digits.len() == 0 {
        0
    } else {
        decimal_value(digits.drop_last()) * 10 + digit_value(digits.last())
    }
}

/// `text` without the plus sign that it may start with.
pub open spec fn unsigned_digits(text: Seq<char>) -> Seq<char> {
    if text.len() > 0 && text[0] == '+' {
        text.drop_first()
    } else {
        text
    }
}

/// The number that `text` writes: `text` is one digit or more, after at most
/// one plus sign, and the number fits in `u32`. Any other text writes no
/// number.
pub open spec fn parse_u32_of(text: Seq<char>) -> Option<u32> {
    let digits = unsigned_digits(text);
    if digits.len() > 0 && all_digits(digits) && decimal_value(digits) <= u32::MAX {
        Some(decimal_value(digits) as u32)
    } else {
        None
    }
}

/// More digits write no smaller a number.
pub proof fn lemma_decimal_value_grows(digits: Seq<char>, len: int)
    requires
        0 <= len <= digits.len(),
    ensures
        decimal_value(digits.subrange(0, len)) <= decimal_value(digits),
    decreases digits.len(),
{
    if len == digits.len() {
        assert(digits.subrange(0, len) =~= digits);
    } else {
        assert(digits.drop_last().subrange(0, len) =~= digits.subrange(0, len));
        lemma_decimal_value_grows(digits.drop_last(), len);
    }
}

/// The number that `text` writes, if it writes one.
pub fn parse_u32(text: &str) -> (parsed: Option<u32>)
    ensures
        parsed == parse_u32_of(text@),
{
    if !text.is_ascii() {
        proof {
            let i = choose|i: int|
                0 <= i < text@.len() && !('\0' <= #[trigger] text@[i] <= '\u{7f}');
            let digits = unsigned_digits(text@);
            if digits.len() == text@.len() {
                assert(!is_digit(digits[i]));
            } else {
                assert(i > 0);
                assert(digits[i - 1] == text@[i]);
                assert(!is_digit(digits[i - 1]));
            }
        }
        return None;
    }
    proof {
        is_ascii_chars_encode_utf8(text@);
    }
    let total = text.as_bytes().len();
    let start: usize = if total > 0 && text.get_ascii(0) == 0x2B {
        1
    } else {
        0
    };
    let ghost digits = unsigned_digits(text@);
    proof {
        assert('+' as u8 == 0x2B);
        assert(digits =~= text@.subrange(start as int, total as int));
    }
    if start == total {
        return None;
    }
    let mut value: u32 = 0;
    let mut at: usize = start;
    proof {
        assert(digits.subrange(0, 0) =~= Seq::<char>::empty());
    }
    while at < total
        invariant
            start <= at <= total,
            total == text@.len(),
            text.is_ascii(),
            digits == unsigned_digits(text@),
            digits == text@.subrange(start as int, total as int),
            all_digits(digits.subrange(0, at - start)),
            value == decimal_value(digits.subrange(0, at - start)),
        decreases total - at,
    {
        let byte = text.get_ascii(at);
        let ghost seen = digits.subrange(0, at - start);
        let ghost longer = digits.subrange(0, at - start + 1);
        proof {
            assert(longer.drop_last() =~= seen);
            assert(longer.last() == text@[at as int]);
            assert('0' as u8 == 0x30 && '9' as u8 == 0x39);
        }
        if byte < 0x30 || byte > 0x39 {
            proof {
                assert(!is_digit(digits[at - start]));
            }
            return None;
        }
        let digit: u32 = (byte - 0x30) as u32;
        proof {
            assert(digit == digit_value(text@[at as int]));
            lemma_decimal_value_grows(digits, at - start + 1);
        }
        if value > (u32::MAX - digit) / 10 {
            return None;
        }
        value = value * 10 + digit;
        at += 1;
        proof {
            assert forall|i: int| 0 <= i < longer.len() implies is_digit(#[trigger] longer[i]) by {
                if i < seen.len() {
                    assert(longer[i] == seen[i]);
                }
            }
        }
    }
    proof {
        assert(digits.subrange(0, at - start) =~= digits);
    }
    Some(value)
}

} // verus!
