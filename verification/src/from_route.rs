//! The rule by which a path variable becomes a value.

use crate::decimal::{decimal_within, parse_signed, parse_unsigned};
use vstd::prelude::*;
use vstd::string::StringSliceAdditionalSpecFns;

verus! {

/// A type whose values can be read from a path variable.
///
/// The variable's text is handed over as it stands in the request. An
/// implementation may keep a borrow of it, which copies nothing, or build
/// an owned value, and it may reject the text by returning `None`.
pub trait FromRoute<'de>: Sized {
    /// Reads a value from the text of one path variable.
    fn parse_path_variable(slice: &'de str) -> Option<Self>;
}

/// The truth value that `text` names: `true` or `false`, nothing else.
pub open spec fn truth_value(text: Seq<u8>) -> Option<bool> {
    if text == seq!['t' as u8, 'r' as u8, 'u' as u8, 'e' as u8] {
        Some(true)
    } else if text == seq!['f' as u8, 'a' as u8, 'l' as u8, 's' as u8, 'e' as u8] {
        Some(false)
    } else {
        None
    }
}

/// Parses `true` or `false`.
pub fn parse_bool(text: &[u8]) -> (value: Option<bool>)
    ensures
        value == truth_value(text@),
{
    if text.len() == 4 && text[0] == 't' as u8 && text[1] == 'r' as u8 && text[2] == 'u' as u8
        && text[3] == 'e' as u8 {
        assert(text@ =~= seq!['t' as u8, 'r' as u8, 'u' as u8, 'e' as u8]);
        Some(true)
    } else if text.len() == 5 && text[0] == 'f' as u8 && text[1] == 'a' as u8 && text[2]
        == 'l' as u8 && text[3] == 's' as u8 && text[4] == 'e' as u8 {
        assert(text@ =~= seq!['f' as u8, 'a' as u8, 'l' as u8, 's' as u8, 'e' as u8]);
        Some(false)
    } else {
        None
    }
}

impl<'de> FromRoute<'de> for bool {
    fn parse_path_variable(slice: &'de str) -> (value: Option<bool>)
        ensures
            value == truth_value(slice.spec_bytes()),
    {
        parse_bool(slice.as_bytes())
    }
}

impl<'de> FromRoute<'de> for u8 {
    fn parse_path_variable(slice: &'de str) -> (value: Option<u8>)
        ensures
            value == match decimal_within(slice.spec_bytes(), false, 0, u8::MAX as int) {
                Some(number) => Some(number as u8),
                None => None,
            },
    {
        match parse_unsigned(slice.as_bytes(), u8::MAX as u128) {
            Some(number) => Some(number as u8),
            None => None,
        }
    }
}

impl<'de> FromRoute<'de> for u16 {
    fn parse_path_variable(slice: &'de str) -> (value: Option<u16>)
        ensures
            value == match decimal_within(slice.spec_bytes(), false, 0, u16::MAX as int) {
                Some(number) => Some(number as u16),
                None => None,
            },
    {
        match parse_unsigned(slice.as_bytes(), u16::MAX as u128) {
            Some(number) => Some(number as u16),
            None => None,
        }
    }
}

impl<'de> FromRoute<'de> for u32 {
    fn parse_path_variable(slice: &'de str) -> (value: Option<u32>)
        ensures
            value == match decimal_within(slice.spec_bytes(), false, 0, u32::MAX as int) {
                Some(number) => Some(number as u32),
                None => None,
            },
    {
        match parse_unsigned(slice.as_bytes(), u32::MAX as u128) {
            Some(number) => Some(number as u32),
            None => None,
        }
    }
}

impl<'de> FromRoute<'de> for u64 {
    fn parse_path_variable(slice: &'de str) -> (value: Option<u64>)
        ensures
            value == match decimal_within(slice.spec_bytes(), false, 0, u64::MAX as int) {
                Some(number) => Some(number as u64),
                None => None,
            },
    {
        match parse_unsigned(slice.as_bytes(), u64::MAX as u128) {
            Some(number) => Some(number as u64),
            None => None,
        }
    }
}

impl<'de> FromRoute<'de> for u128 {
    fn parse_path_variable(slice: &'de str) -> (value: Option<u128>)
        ensures
            value == match decimal_within(slice.spec_bytes(), false, 0, u128::MAX as int) {
                Some(number) => Some(number as u128),
                None => None,
            },
    {
        match parse_unsigned(slice.as_bytes(), u128::MAX as u128) {
            Some(number) => Some(number as u128),
            None => None,
        }
    }
}

impl<'de> FromRoute<'de> for usize {
    fn parse_path_variable(slice: &'de str) -> (value: Option<usize>)
        ensures
            value == match decimal_within(slice.spec_bytes(), false, 0, usize::MAX as int) {
                Some(number) => Some(number as usize),
                None => None,
            },
    {
        match parse_unsigned(slice.as_bytes(), usize::MAX as u128) {
            Some(number) => Some(number as usize),
            None => None,
        }
    }
}

impl<'de> FromRoute<'de> for i8 {
    fn parse_path_variable(slice: &'de str) -> (value: Option<i8>)
        ensures
            value == match decimal_within(slice.spec_bytes(), true, i8::MIN as int, i8::MAX as int) {
                Some(number) => Some(number as i8),
                None => None,
            },
    {
        match parse_signed(slice.as_bytes(), i8::MIN as i128, i8::MAX as i128) {
            Some(number) => Some(number as i8),
            None => None,
        }
    }
}

impl<'de> FromRoute<'de> for i16 {
    fn parse_path_variable(slice: &'de str) -> (value: Option<i16>)
        ensures
            value == match decimal_within(slice.spec_bytes(), true, i16::MIN as int, i16::MAX as int) {
                Some(number) => Some(number as i16),
                None => None,
            },
    {
        match parse_signed(slice.as_bytes(), i16::MIN as i128, i16::MAX as i128) {
            Some(number) => Some(number as i16),
            None => None,
        }
    }
}

impl<'de> FromRoute<'de> for i32 {
    fn parse_path_variable(slice: &'de str) -> (value: Option<i32>)
        ensures
            value == match decimal_within(slice.spec_bytes(), true, i32::MIN as int, i32::MAX as int) {
                Some(number) => Some(number as i32),
                None => None,
            },
    {
        match parse_signed(slice.as_bytes(), i32::MIN as i128, i32::MAX as i128) {
            Some(number) => Some(number as i32),
            None => None,
        }
    }
}

impl<'de> FromRoute<'de> for i64 {
    fn parse_path_variable(slice: &'de str) -> (value: Option<i64>)
        ensures
            value == match decimal_within(slice.spec_bytes(), true, i64::MIN as int, i64::MAX as int) {
                Some(number) => Some(number as i64),
                None => None,
            },
    {
        match parse_signed(slice.as_bytes(), i64::MIN as i128, i64::MAX as i128) {
            Some(number) => Some(number as i64),
            None => None,
        }
    }
}

impl<'de> FromRoute<'de> for i128 {
    fn parse_path_variable(slice: &'de str) -> (value: Option<i128>)
        ensures
            value == match decimal_within(slice.spec_bytes(), true, i128::MIN as int, i128::MAX as int) {
                Some(number) => Some(number as i128),
                None => None,
            },
    {
        match parse_signed(slice.as_bytes(), i128::MIN as i128, i128::MAX as i128) {
            Some(number) => Some(number as i128),
            None => None,
        }
    }
}

impl<'de> FromRoute<'de> for isize {
    fn parse_path_variable(slice: &'de str) -> (value: Option<isize>)
        ensures
            value == match decimal_within(slice.spec_bytes(), true, isize::MIN as int, isize::MAX as int) {
                Some(number) => Some(number as isize),
                None => None,
            },
    {
        match parse_signed(slice.as_bytes(), isize::MIN as i128, isize::MAX as i128) {
            Some(number) => Some(number as isize),
            None => None,
        }
    }
}

impl<'de> FromRoute<'de> for &'de [u8] {
    fn parse_path_variable(slice: &'de str) -> (value: Option<&'de [u8]>)
        ensures
            value.is_some(),
            value.unwrap()@ == slice.spec_bytes(),
    {
        Some(slice.as_bytes())
    }
}

impl<'de> FromRoute<'de> for &'de str {
    fn parse_path_variable(slice: &'de str) -> (value: Option<&'de str>)
        ensures
            value == Some(slice),
    {
        Some(slice)
    }
}

impl<'de> FromRoute<'de> for String {
    fn parse_path_variable(slice: &'de str) -> (value: Option<String>)
        ensures
            value.is_some(),
            value.unwrap()@ == slice@,
    {
        Some(slice.to_owned())
    }
}

} // verus!
