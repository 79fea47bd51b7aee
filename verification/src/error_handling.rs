//! Results: reading a positive integer from text, or saying why not.
use crate::numerals::{append_signed_decimal, signed_decimal};
use vstd::prelude::*;
use vstd::std_specs::iter::IteratorSpec;
use vstd::string::StringExecFns;

verus! {

broadcast use vstd::string::group_string_axioms;

/// Whether `c` is one of the ten decimal digits.
pub open spec fn is_digit(c: char) -> bool {
    '0' <= c <= '9'
}

/// The number that a decimal digit stands for.
pub open spec fn digit_value(c: char) -> nat
    recommends
        is_digit(c),
{
    (c as int - '0' as int) as nat
}

/// Whether `text` consists of decimal digits only.
pub open spec fn all_digits(text: Seq<char>) -> bool {
    forall|i: int| 0 <= i < text.len() ==> is_digit(#[trigger] text[i])
}

/// The number that a row of decimal digits stands for.
pub open spec fn digits_value(digits: Seq<char>) -> nat
    decreases digits.len(),
{
    if digits.len() == 0 {
        0
    } else {
        digits_value(digits.drop_last()) * 10 + digit_value(digits.last())
    }
}

/// The integer that `text` spells: an optional sign, `+` or `-`, and then
/// decimal digits, at least one, and nothing else. There is none if `text`
/// is not of that form, or if the number does not fit in 32 bits.
pub open spec fn parsed_integer(text: Seq<char>) -> Option<int> {
    let signed = text.len() > 0 && (text[0] == '+' || text[0] == '-');
    let digits = if signed {
        text.drop_first()
    } else {
        text
    };
    let size = digits_value(digits) as int;
    let value = if text.len() > 0 && text[0] == '-' {
        -size
    } else {
        size
    };
    if digits.len() > 0 && all_digits(digits) && i32::MIN <= value <= i32::MAX {
        Some(value)
    } else {
        None
    }
}

/// What is said of a number that was read but is not positive.
pub open spec fn not_positive_message(number: int) -> Seq<char> {
    "解析成功，但数字 '"@ + signed_decimal(number) + "' 不是正数。"@
}

/// What is said of a text that spells no integer.
pub open spec fn not_an_integer_message(text: Seq<char>) -> Seq<char> {
    "解析失败：'"@ + text + "' 不是一个有效的整数。"@
}

/// The positive integer that `text` spells, or what is wrong with it.
pub open spec fn positive_integer(text: Seq<char>) -> Result<int, Seq<char>> {
    match parsed_integer(text) {
        Some(number) => if number > 0 {
            Ok(number)
        } else {
            Err(not_positive_message(number))
        },
        None => Err(not_an_integer_message(text)),
    }
}

/// A row of digits stands for no less than any of its beginnings.
proof fn lemma_digits_value_grows(digits: Seq<char>, count: int)
    requires
        0 <= count <= digits.len(),
    ensures
        digits_value(digits.take(count)) <= digits_value(digits),
    decreases digits.len(),
{
    if count < digits.len() {
        lemma_digits_value_grows(digits.drop_last(), count);
        assert(digits.drop_last().take(count) =~= digits.take(count));
    } else {
        assert(digits.take(count) =~= digits);
    }
}

/// Reads a 32-bit integer in decimal notation.
pub fn parse_integer(s: &str) -> (number: Option<i32>)
    ensures
        match number {
            Some(value) => parsed_integer(s@) == Some(value as int),
            None => parsed_integer(s@) is None,
        },
{
    let mut rest = s.chars();
    let first = match rest.next() {
        None => {
            return None;
        },
        Some(c) => c,
    };
    let negative = first == '-';
    let signed = first == '-' || first == '+';
    let ghost digits = if signed {
        s@.drop_first()
    } else {
        s@
    };
    let mut size: i64 = 0;
    let mut any_digit = false;
    let ghost mut count: int = 0;
    if !signed {
        if !('0' <= first && first <= '9') {
            return None;
        }
        size = (first as u32 - '0' as u32) as i64;
        any_digit = true;
        proof {
            count = 1;
        }
        assert(digits.take(1).drop_last() =~= Seq::<char>::empty());
        assert(digits_value(digits.take(0)) == 0);
    }
    assert(digits.take(0) =~= Seq::<char>::empty());
    loop
        invariant
            0 <= count <= digits.len(),
            any_digit == (count > 0),
            rest.remaining() == digits.skip(count),
            all_digits(digits.take(count)),
            size == digits_value(digits.take(count)),
            size <= 2147483648,
            digits == (if signed {
                s@.drop_first()
            } else {
                s@
            }),
            signed == (s@.len() > 0 && (s@[0] == '+' || s@[0] == '-')),
            negative == (s@.len() > 0 && s@[0] == '-'),
            rest.decrease() is Some,
        decreases rest.decrease()->0,
    {
        match rest.next() {
            None => {
                assert(digits.take(count) =~= digits);
                if !any_digit {
                    return None;
                }
                if negative {
                    return Some((-size) as i32);
                }
                if size > 2147483647 {
                    return None;
                }
                return Some(size as i32);
            },
            Some(c) => {
                if !('0' <= c && c <= '9') {
                    return None;
                }
                let ghost seen = digits.take(count + 1);
                assert(seen.drop_last() =~= digits.take(count));
                size = size * 10 + (c as u32 - '0' as u32) as i64;
                if size > 2147483648 {
                    proof {
                        if all_digits(digits) {
                            lemma_digits_value_grows(digits, count + 1);
                        }
                    }
                    return None;
                }
                any_digit = true;
                proof {
                    count = count + 1;
                }
            },
        }
    }
}

/// Reads a positive integer from `s`, or says why none can be had: either
/// `s` spells no integer, or the integer is not positive.
pub fn parse_positive_integer(s: &str) -> (result: Result<i32, String>)
    ensures
        match result {
            Ok(number) => positive_integer(s@) == Ok::<int, Seq<char>>(number as int),
            Err(message) => positive_integer(s@) == Err::<int, Seq<char>>(message@),
        },
{
    match parse_integer(s) {
        Some(num) => {
            if num > 0 {
                Ok(num)
            } else {
                let mut message = String::from_str("解析成功，但数字 '");
                append_signed_decimal(&mut message, num as i64);
                message.append("' 不是正数。");
                Err(message)
            }
        },
        None => {
            let mut message = String::from_str("解析失败：'");
            message.append(s);
            message.append("' 不是一个有效的整数。");
            Err(message)
        },
    }
}

} // verus!
