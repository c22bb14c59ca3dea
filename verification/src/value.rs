//! The kinds of value a cell can hold and the type tags of columns.

use vstd::prelude::*;

verus! {

/// The declared type of a column.
#[derive(Debug, Clone, Copy, PartialEq, Eq, Structural)]
pub enum ColumnType {
    Text,
    Numb,
    Bool,
    Char,
}

/// A cell value. `Empty` marks the absence of a value and fits every column.
#[derive(Debug, Hash)]
pub enum Value {
    Text(String),
    Char(char),
    Numb(i64),
    Bool(bool),
    Empty,
}

/// The mathematical content of a [`Value`].
pub enum ValueView {
    Text(Seq<char>),
    Char(char),
    Numb(i64),
    Bool(bool),
    Empty,
}

impl View for Value {
    type V = ValueView;

    open spec fn view(&self) -> ValueView {
        match *self {
            Value::Text(s) => ValueView::Text(s@),
            Value::Char(c) => ValueView::Char(c),
            Value::Numb(n) => ValueView::Numb(n),
            Value::Bool(b) => ValueView::Bool(b),
            Value::Empty => ValueView::Empty,
        }
    }
}

impl ValueView {
    /// Whether a value may stand in a column of the given type: `Empty` fits
    /// every type, any other value only the type of its own kind.
    pub open spec fn fits(self, coltype: ColumnType) -> bool {
        match self {
            ValueView::Empty => true,
            ValueView::Text(_) => coltype == ColumnType::Text,
            ValueView::Char(_) => coltype == ColumnType::Char,
            ValueView::Numb(_) => coltype == ColumnType::Numb,
            ValueView::Bool(_) => coltype == ColumnType::Bool,
        }
    }
}

impl Clone for Value {
    fn clone(&self) -> (res: Self)
        ensures
            res == *self,
    {
        match self {
            Value::Text(s) => Value::Text(s.clone()),
            Value::Char(c) => Value::Char(*c),
            Value::Numb(n) => Value::Numb(*n),
            Value::Bool(b) => Value::Bool(*b),
            Value::Empty => Value::Empty,
        }
    }
}

impl PartialEq for Value {
    fn eq(&self, other: &Value) -> (r: bool) {
        match (self, other) {
            (Value::Text(a), Value::Text(b)) => *a == *b,
            (Value::Char(a), Value::Char(b)) => *a == *b,
            (Value::Numb(a), Value::Numb(b)) => *a == *b,
            (Value::Bool(a), Value::Bool(b)) => *a == *b,
            (Value::Empty, Value::Empty) => true,
            _ => false,
        }
    }
}

impl Eq for Value {
}

impl vstd::std_specs::cmp::PartialEqSpecImpl for Value {
    open spec fn obeys_eq_spec() -> bool {
        true
    }

    open spec fn eq_spec(&self, other: &Value) -> bool {
        self@ == other@
    }
}

impl Value {
    /// Whether the value is the `Empty` marker.
    pub fn is_empty(&self) -> (r: bool)
        ensures
            r == (self@ == ValueView::Empty),
    {
        match self {
            Value::Empty => true,
            _ => false,
        }
    }
}

} // verus!
