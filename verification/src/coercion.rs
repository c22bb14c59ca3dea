//! Turning text that a user typed into a value of a column's type.

use vstd::prelude::*;
use crate::error::{ErrorView, TableError};
use crate::text::{bool_word, decimal_i64, parse_bool, parse_decimal};
use crate::value::{ColumnType, Value, ValueView};

verus! {

/// The value that a text stands for in a column of the given type, if it
/// stands for one. Any text is a `Text`; a `Char` is a text of exactly one
/// character; a `Numb` is a 64-bit signed integer in base ten; a `Bool` is
/// one of the words for a truth value.
pub open spec fn coerce(coltype: ColumnType, text: Seq<char>) -> Option<ValueView> {
    match coltype {
        ColumnType::Text => Some(ValueView::Text(text)),
        ColumnType::Char => if text.len() == 1 {
            Some(ValueView::Char(text[0]))
        } else {
            None
        },
        ColumnType::Numb => match decimal_i64(text) {
            Some(n) => Some(ValueView::Numb(n)),
            None => None,
        },
        ColumnType::Bool => match bool_word(text) {
            Some(b) => Some(ValueView::Bool(b)),
            None => None,
        },
    }
}

/// What reading a text as a value of a type gives: the value, or the error
/// that names the type and the text.
pub open spec fn coerced(coltype: ColumnType, text: Seq<char>, r: Result<Value, TableError>) -> bool {
    match coerce(coltype, text) {
        Some(v) => r matches Ok(x) && x@ == v,
        None => r matches Err(e) && e@ == (ErrorView::InvalidFormat {
            expected: coltype,
            input: text,
        }),
    }
}

/// Reads a text as a value of the given type.
pub fn parse_value(coltype: ColumnType, input: &str) -> (r: Result<Value, TableError>)
    ensures
        coerced(coltype, input@, r),
        r matches Ok(x) ==> x@.fits(coltype) && x@ != ValueView::Empty,
{
    let parsed = match coltype {
        ColumnType::Text => Some(Value::Text(input.to_owned())),
        ColumnType::Char => {
            if input.unicode_len() == 1 {
                Some(Value::Char(input.get_char(0)))
            } else {
                None
            }
        },
        ColumnType::Numb => match parse_decimal(input) {
            Some(n) => Some(Value::Numb(n)),
            None => None,
        },
        ColumnType::Bool => match parse_bool(input) {
            Some(b) => Some(Value::Bool(b)),
            None => None,
        },
    };
    match parsed {
        Some(v) => Ok(v),
        None => Err(TableError::InvalidFormat { expected: coltype, input: input.to_owned() }),
    }
}

} // verus!
