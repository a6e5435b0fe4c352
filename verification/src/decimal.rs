//! Decimal integers in path variables.
//!
//! A decimal integer is an optional sign and one or more digits. A `+` may
//! stand before any integer; a `-` only before one of a signed type.

use vstd::prelude::*;

verus! {

/// `byte` is one of the ten decimal digits.
pub open spec fn is_digit(byte: u8) -> bool {
    '0' as u8 <= byte <= '9' as u8
}

/// Every byte of `text` is a decimal digit.
pub open spec fn all_digits(text: Seq<u8>) -> bool {
    forall|i: int| 0 <= i < text.len() ==> is_digit(#[trigger] text[i])
}

/// The number that the digit `byte` stands for.
pub open spec fn digit_value(byte: u8) -> nat {
    if is_digit(byte) {
        (byte - '0' as u8) as nat
    } else {
        0
    }
}

/// The number that the digits of `text` write in base ten.
pub open spec fn digits_value(text: Seq<u8>) -> nat
    decreases text.len(),
{
    if text.len() == 0 {
        0
    } else {
        digits_value(text.drop_last()) * 10 + digit_value(text.last())
    }
}

/// `text` starts with a sign that a type, signed or not, accepts.
pub open spec fn has_sign(text: Seq<u8>, signed: bool) -> bool {
    text.len() > 0 && (text[0] == '+' as u8 || (signed && text[0] == '-' as u8))
}

/// The digits of `text`: what follows its sign, if it has one.
pub open spec fn digits_of(text: Seq<u8>, signed: bool) -> Seq<u8> {
    if has_sign(text, signed) {
        text.skip(1)
    } else {
        text
    }
}

/// The integer that `text` writes, whatever its size: an optional sign, `-`
/// only where `signed`, then one or more digits and nothing else.
pub open spec fn decimal(text: Seq<u8>, signed: bool) -> Option<int> {
    let digits = digits_of(text, signed);
    if digits.len() == 0 || !all_digits(digits) {
        None
    } else if has_sign(text, signed) && text[0] == '-' as u8 {
        Some(-(digits_value(digits) as int))
    } else {
        Some(digits_value(digits) as int)
    }
}

/// The integer that `text` writes, where it lies between `min` and `max`.
pub open spec fn decimal_within(text: Seq<u8>, signed: bool, min: int, max: int) -> Option<int> {
    match decimal(text, signed) {
        Some(value) => if min <= value <= max {
            Some(value)
        } else {
            None
        },
        None => None,
    }
}

/// The bounds of a type are exact: a text stands for a value between `min`
/// and `max` exactly when it writes an integer that lies between them,
/// both ends included, and it then stands for that integer.
pub proof fn lemma_bounds_exact(text: Seq<u8>, signed: bool, min: int, max: int)
    ensures
        decimal_within(text, signed, min, max).is_some() <==> (decimal(text, signed).is_some()
            && min <= decimal(text, signed).unwrap() <= max),
        decimal_within(text, signed, min, max).is_some() ==> decimal_within(
            text,
            signed,
            min,
            max,
        ) == decimal(text, signed),
        !signed && decimal(text, signed).is_some() ==> decimal(text, signed).unwrap() >= 0,
        !signed && text.len() > 0 && text[0] == '-' as u8 ==> decimal(text, signed).is_none(),
{
    if !signed && text.len() > 0 && text[0] == '-' as u8 {
        assert(!is_digit(digits_of(text, signed)[0]));
    }
}

/// The digits of a prefix write no larger a number than the whole.
pub proof fn lemma_digits_value_prefix(text: Seq<u8>, len: int)
    requires
        0 <= len <= text.len(),
    ensures
        digits_value(text.subrange(0, len)) <= digits_value(text),
    decreases text.len(),
{
    if len == text.len() {
        assert(text.subrange(0, len) =~= text);
    } else {
        let shorter = text.drop_last();
        lemma_digits_value_prefix(shorter, len);
        assert(shorter.subrange(0, len) =~= text.subrange(0, len));
    }
}

/// Reads the digits of `text` from offset `from` on.
///
/// Returns the number they write where there is at least one byte, each
/// is a digit, and the number fits.
fn magnitude(text: &[u8], from: usize) -> (number: Option<u128>)
    requires
        from <= text@.len(),
    ensures
        number == if text@.skip(from as int).len() > 0 && all_digits(text@.skip(from as int))
            && digits_value(text@.skip(from as int)) <= u128::MAX {
            Some(digits_value(text@.skip(from as int)) as u128)
        } else {
            None
        },
{
    let ghost digits = text@.skip(from as int);
    if from == text.len() {
        return None;
    }
    let mut value: u128 = 0;
    let mut at: usize = from;
    while at < text.len()
        invariant
            from <= at <= text@.len(),
            digits == text@.skip(from as int),
            all_digits(digits.subrange(0, at - from)),
            value == digits_value(digits.subrange(0, at - from)),
        decreases text@.len() - at,
    {
        let byte: u8 = text[at];
        let ghost before = digits.subrange(0, at - from);
        let ghost after = digits.subrange(0, at - from + 1);
        proof {
            assert(after.drop_last() =~= before);
            assert(after.last() == byte);
        }
        if byte < '0' as u8 || byte > '9' as u8 {
            assert(!is_digit(digits[at - from]));
            return None;
        }
        let digit: u128 = (byte - '0' as u8) as u128;
        if value > (u128::MAX - digit) / 10 {
            proof {
                lemma_digits_value_prefix(digits, at - from + 1);
            }
            return None;
        }
        value = value * 10 + digit;
        at += 1;
        proof {
            assert forall|i: int| 0 <= i < after.len() implies is_digit(#[trigger] after[i]) by {
                if i < before.len() {
                    assert(before[i] == after[i]);
                }
            }
        }
    }
    assert(digits.subrange(0, at - from) =~= digits);
    Some(value)
}

/// Parses an unsigned decimal integer of at most `max`.
pub fn parse_unsigned(text: &[u8], max: u128) -> (number: Option<u128>)
    ensures
        number == match decimal_within(text@, false, 0, max as int) {
            Some(value) => Some(value as u128),
            None => None,
        },
{
    let from: usize = if text.len() > 0 && text[0] == '+' as u8 {
        1
    } else {
        0
    };
    assert(text@.skip(0) =~= text@);
    match magnitude(text, from) {
        Some(value) => if value <= max {
            Some(value)
        } else {
            None
        },
        None => None,
    }
}

/// Parses a signed decimal integer between `min` and `max`.
pub fn parse_signed(text: &[u8], min: i128, max: i128) -> (number: Option<i128>)
    ensures
        number == match decimal_within(text@, true, min as int, max as int) {
            Some(value) => Some(value as i128),
            None => None,
        },
{
    let negative: bool = text.len() > 0 && text[0] == '-' as u8;
    let from: usize = if text.len() > 0 && (negative || text[0] == '+' as u8) {
        1
    } else {
        0
    };
    assert(text@.skip(0) =~= text@);
    match magnitude(text, from) {
        Some(value) => {
            if negative {
                if value > 0x8000_0000_0000_0000_0000_0000_0000_0000u128 {
                    None
                } else if value == 0x8000_0000_0000_0000_0000_0000_0000_0000u128 {
                    if min == i128::MIN {
                        Some(i128::MIN)
                    } else {
                        None
                    }
                } else {
                    let number: i128 = -(value as i128);
                    if min <= number && number <= max {
                        Some(number)
                    } else {
                        None
                    }
                }
            } else if value <= 0x7fff_ffff_ffff_ffff_ffff_ffff_ffff_ffffu128 {
                let number: i128 = value as i128;
                if min <= number && number <= max {
                    Some(number)
                } else {
                    None
                }
            } else {
                None
            }
        },
        None => None,
    }
}

} // verus!
