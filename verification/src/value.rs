//! The types that a capture field may have, and the values of those types.

use crate::decimal::{decimal_within, parse_signed, parse_unsigned};
use crate::from_route::{parse_bool, truth_value};
use crate::scan::as_text;
use vstd::prelude::*;
use vstd::utf8::{decode_utf8, valid_utf8};

verus! {

/// The type of a capture field.
#[derive(Debug, PartialEq, Eq, Structural, Clone, Copy)]
pub enum FieldKind {
    /// `true` or `false`.
    Bool,
    /// An 8-bit unsigned integer.
    U8,
    /// A 16-bit unsigned integer.
    U16,
    /// A 32-bit unsigned integer.
    U32,
    /// A 64-bit unsigned integer.
    U64,
    /// A 128-bit unsigned integer.
    U128,
    /// An unsigned integer of pointer width.
    Usize,
    /// An 8-bit signed integer.
    I8,
    /// A 16-bit signed integer.
    I16,
    /// A 32-bit signed integer.
    I32,
    /// A 64-bit signed integer.
    I64,
    /// A 128-bit signed integer.
    I128,
    /// A signed integer of pointer width.
    Isize,
    /// The bytes of the variable, borrowed from the request.
    Bytes,
    /// The text of the variable, borrowed from the request.
    Str,
    /// The text of the variable, copied.
    Text,
}

/// The value of a capture field.
#[derive(Debug, PartialEq, Eq)]
pub enum Value<'a> {
    /// A truth value.
    Bool(bool),
    /// An 8-bit unsigned integer.
    U8(u8),
    /// A 16-bit unsigned integer.
    U16(u16),
    /// A 32-bit unsigned integer.
    U32(u32),
    /// A 64-bit unsigned integer.
    U64(u64),
    /// A 128-bit unsigned integer.
    U128(u128),
    /// An unsigned integer of pointer width.
    Usize(usize),
    /// An 8-bit signed integer.
    I8(i8),
    /// A 16-bit signed integer.
    I16(i16),
    /// A 32-bit signed integer.
    I32(i32),
    /// A 64-bit signed integer.
    I64(i64),
    /// A 128-bit signed integer.
    I128(i128),
    /// A signed integer of pointer width.
    Isize(isize),
    /// Bytes borrowed from the request.
    Bytes(&'a [u8]),
    /// Text borrowed from the request.
    Str(&'a str),
    /// Text of its own.
    Text(String),
}

/// What a value is, as a plain value.
pub enum ValueView {
    /// A truth value.
    Bool(bool),
    /// An integer, with the type that holds it.
    Integer(FieldKind, int),
    /// Borrowed bytes.
    Bytes(Seq<u8>),
    /// Borrowed text.
    Str(Seq<char>),
    /// Owned text.
    Text(Seq<char>),
}

impl<'a> View for Value<'a> {
    type V = ValueView;

    open spec fn view(&self) -> ValueView {
        match self {
            Value::Bool(b) => ValueView::Bool(*b),
            Value::U8(n) => ValueView::Integer(FieldKind::U8, *n as int),
            Value::U16(n) => ValueView::Integer(FieldKind::U16, *n as int),
            Value::U32(n) => ValueView::Integer(FieldKind::U32, *n as int),
            Value::U64(n) => ValueView::Integer(FieldKind::U64, *n as int),
            Value::U128(n) => ValueView::Integer(FieldKind::U128, *n as int),
            Value::Usize(n) => ValueView::Integer(FieldKind::Usize, *n as int),
            Value::I8(n) => ValueView::Integer(FieldKind::I8, *n as int),
            Value::I16(n) => ValueView::Integer(FieldKind::I16, *n as int),
            Value::I32(n) => ValueView::Integer(FieldKind::I32, *n as int),
            Value::I64(n) => ValueView::Integer(FieldKind::I64, *n as int),
            Value::I128(n) => ValueView::Integer(FieldKind::I128, *n as int),
            Value::Isize(n) => ValueView::Integer(FieldKind::Isize, *n as int),
            Value::Bytes(bytes) => ValueView::Bytes(bytes@),
            Value::Str(text) => ValueView::Str(text@),
            Value::Text(text) => ValueView::Text(text@),
        }
    }
}

impl FieldKind {
    /// The kind is one of the integer types.
    pub open spec fn is_integer(self) -> bool {
        !(self is Bool || self is Bytes || self is Str || self is Text)
    }

    /// The kind is one of the signed integer types.
    pub open spec fn is_signed(self) -> bool {
        self is I8 || self is I16 || self is I32 || self is I64 || self is I128 || self is Isize
    }

    /// The least value of an integer kind.
    pub open spec fn least(self) -> int {
        match self {
            FieldKind::I8 => i8::MIN as int,
            FieldKind::I16 => i16::MIN as int,
            FieldKind::I32 => i32::MIN as int,
            FieldKind::I64 => i64::MIN as int,
            FieldKind::I128 => i128::MIN as int,
            FieldKind::Isize => isize::MIN as int,
            _ => 0,
        }
    }

    /// The greatest value of an integer kind.
    pub open spec fn greatest(self) -> int {
        match self {
            FieldKind::U8 => u8::MAX as int,
            FieldKind::U16 => u16::MAX as int,
            FieldKind::U32 => u32::MAX as int,
            FieldKind::U64 => u64::MAX as int,
            FieldKind::U128 => u128::MAX as int,
            FieldKind::Usize => usize::MAX as int,
            FieldKind::I8 => i8::MAX as int,
            FieldKind::I16 => i16::MAX as int,
            FieldKind::I32 => i32::MAX as int,
            FieldKind::I64 => i64::MAX as int,
            FieldKind::I128 => i128::MAX as int,
            FieldKind::Isize => isize::MAX as int,
            _ => 0,
        }
    }

    /// The value of this kind that the text `raw` of a path variable
    /// stands for, or `None` where it stands for none.
    ///
    /// A truth value is `true` or `false`. An integer is a decimal integer
    /// within the bounds of its type. Bytes are taken as they are. Text
    /// must be valid UTF-8.
    pub open spec fn value_of(self, raw: Seq<u8>) -> Option<ValueView> {
        match self {
            FieldKind::Bool => match truth_value(raw) {
                Some(b) => Some(ValueView::Bool(b)),
                None => None,
            },
            FieldKind::Bytes => Some(ValueView::Bytes(raw)),
            FieldKind::Str => if valid_utf8(raw) {
                Some(ValueView::Str(decode_utf8(raw)))
            } else {
                None
            },
            FieldKind::Text => if valid_utf8(raw) {
                Some(ValueView::Text(decode_utf8(raw)))
            } else {
                None
            },
            _ => match decimal_within(raw, self.is_signed(), self.least(), self.greatest()) {
                Some(number) => Some(ValueView::Integer(self, number)),
                None => None,
            },
        }
    }

    /// Reads a value of this kind from the text of a path variable.
    pub fn convert<'a>(self, raw: &'a [u8]) -> (value: Option<Value<'a>>)
        ensures
            match value {
                Some(v) => self.value_of(raw@) == Some(v@),
                None => self.value_of(raw@).is_none(),
            },
    {
        match self {
            FieldKind::Bool => match parse_bool(raw) {
                Some(b) => Some(Value::Bool(b)),
                None => None,
            },
            FieldKind::U8 => match parse_unsigned(raw, u8::MAX as u128) {
                Some(n) => Some(Value::U8(n as u8)),
                None => None,
            },
            FieldKind::U16 => match parse_unsigned(raw, u16::MAX as u128) {
                Some(n) => Some(Value::U16(n as u16)),
                None => None,
            },
            FieldKind::U32 => match parse_unsigned(raw, u32::MAX as u128) {
                Some(n) => Some(Value::U32(n as u32)),
                None => None,
            },
            FieldKind::U64 => match parse_unsigned(raw, u64::MAX as u128) {
                Some(n) => Some(Value::U64(n as u64)),
                None => None,
            },
            FieldKind::U128 => match parse_unsigned(raw, u128::MAX) {
                Some(n) => Some(Value::U128(n)),
                None => None,
            },
            FieldKind::Usize => match parse_unsigned(raw, usize::MAX as u128) {
                Some(n) => Some(Value::Usize(n as usize)),
                None => None,
            },
            FieldKind::I8 => match parse_signed(raw, i8::MIN as i128, i8::MAX as i128) {
                Some(n) => Some(Value::I8(n as i8)),
                None => None,
            },
            FieldKind::I16 => match parse_signed(raw, i16::MIN as i128, i16::MAX as i128) {
                Some(n) => Some(Value::I16(n as i16)),
                None => None,
            },
            FieldKind::I32 => match parse_signed(raw, i32::MIN as i128, i32::MAX as i128) {
                Some(n) => Some(Value::I32(n as i32)),
                None => None,
            },
            FieldKind::I64 => match parse_signed(raw, i64::MIN as i128, i64::MAX as i128) {
                Some(n) => Some(Value::I64(n as i64)),
                None => None,
            },
            FieldKind::I128 => match parse_signed(raw, i128::MIN, i128::MAX) {
                Some(n) => Some(Value::I128(n)),
                None => None,
            },
            FieldKind::Isize => match parse_signed(raw, isize::MIN as i128, isize::MAX as i128) {
                Some(n) => Some(Value::Isize(n as isize)),
                None => None,
            },
            FieldKind::Bytes => Some(Value::Bytes(raw)),
            FieldKind::Str => match as_text(raw) {
                Some(text) => Some(Value::Str(text)),
                None => None,
            },
            FieldKind::Text => match as_text(raw) {
                Some(text) => Some(Value::Text(text.to_owned())),
                None => None,
            },
        }
    }
}

} // verus!
