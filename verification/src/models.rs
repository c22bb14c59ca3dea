//! Columns and rows, the two building blocks of a table.

use vstd::prelude::*;
use crate::value::{ColumnType, Value, ValueView};

verus! {

/// A column: its name, its declared type and two flags.
#[derive(Debug, PartialEq, Eq)]
pub struct ColumnTable {
    pub colname: String,
    pub coltype: ColumnType,
    pub is_primary: bool,
    pub _is_auto_increment: bool,
}

/// The mathematical content of a [`ColumnTable`].
pub struct ColumnView {
    pub name: Seq<char>,
    pub coltype: ColumnType,
    pub is_primary: bool,
    pub auto_increment: bool,
}

impl View for ColumnTable {
    type V = ColumnView;

    open spec fn view(&self) -> ColumnView {
        ColumnView {
            name: self.colname@,
            coltype: self.coltype,
            is_primary: self.is_primary,
            auto_increment: self._is_auto_increment,
        }
    }
}

impl Clone for ColumnTable {
    fn clone(&self) -> (res: Self)
        ensures
            res == *self,
    {
        ColumnTable {
            colname: self.colname.clone(),
            coltype: self.coltype,
            is_primary: self.is_primary,
            _is_auto_increment: self._is_auto_increment,
        }
    }
}

/// The mathematical content of a sequence of values.
pub open spec fn values_view(values: Seq<Value>) -> Seq<ValueView> {
    values.map_values(|v: Value| v@)
}

/// A row: one value for each column, in the order of the columns.
#[derive(Debug, PartialEq, Eq)]
pub struct RowTable {
    pub value: Vec<Value>,
}

impl View for RowTable {
    type V = Seq<ValueView>;

    open spec fn view(&self) -> Seq<ValueView> {
        values_view(self.value@)
    }
}

impl Clone for RowTable {
    fn clone(&self) -> (res: Self)
        ensures
            res@ == self@,
            res.value@ == self.value@,
    {
        let mut value: Vec<Value> = Vec::new();
        let mut i: usize = 0;
        while i < self.value.len()
            invariant
                i <= self.value.len(),
                value@ == self.value@.subrange(0, i as int),
            decreases self.value.len() - i,
        {
            value.push(self.value[i].clone());
            proof {
                assert(value@ =~= self.value@.subrange(0, i + 1));
            }
            i = i + 1;
        }
        proof {
            assert(value@ =~= self.value@);
        }
        RowTable { value }
    }
}

} // verus!
