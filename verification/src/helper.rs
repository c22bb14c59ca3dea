//! Checks and small accessors that the table operations rest on.

use vstd::prelude::*;
use crate::coercion::{coerced, parse_value};
use crate::error::TableError;
use crate::model::row_holds;
use crate::table::DataTable;
use crate::value::{ColumnType, Value, ValueView};

verus! {

impl DataTable {
    /// Reads a text as a value of the type of column `col_index`.
    pub fn _parse_input_to_value_type(&self, col_index: usize, input: &str) -> (r: Result<
        Value,
        TableError,
    >)
        requires
            col_index < self.column.len(),
        ensures
            coerced(self@.columns[col_index as int].coltype, input@, r),
            r matches Ok(x) ==> x@.fits(self@.columns[col_index as int].coltype),
    {
        parse_value(self.column[col_index].coltype, input)
    }

    /// The name of the first column that is flagged as primary.
    pub fn _get_column_is_primary_active(&self) -> (r: Option<&str>)
        ensures
            match r {
                Some(name) => exists|i: int|
                    self@.first_flagged_primary(i) && name@ == self@.columns[i].name,
                None => forall|i: int|
                    0 <= i < self@.columns.len() ==> !(#[trigger] self@.columns[i]).is_primary,
            },
    {
        let mut i: usize = 0;
        while i < self.column.len()
            invariant
                i <= self.column.len(),
                forall|j: int| 0 <= j < i ==> !(#[trigger] self@.columns[j]).is_primary,
            decreases self.column.len() - i,
        {
            if self.column[i].is_primary {
                proof {
                    assert(self@.first_flagged_primary(i as int));
                }
                return Some(self.column[i].colname.as_str());
            }
            i = i + 1;
        }
        None
    }

    /// The name of the first column that is flagged for automatic numbering.
    pub fn _get_column_is_increment_active(&self) -> (r: Option<&str>)
        ensures
            match r {
                Some(name) => exists|i: int|
                    self@.first_flagged_numbered(i) && name@ == self@.columns[i].name,
                None => forall|i: int|
                    0 <= i < self@.columns.len() ==> !(#[trigger] self@.columns[i]).auto_increment,
            },
    {
        let mut i: usize = 0;
        while i < self.column.len()
            invariant
                i <= self.column.len(),
                forall|j: int| 0 <= j < i ==> !(#[trigger] self@.columns[j]).auto_increment,
            decreases self.column.len() - i,
        {
            if self.column[i]._is_auto_increment {
                proof {
                    assert(self@.first_flagged_numbered(i as int));
                }
                return Some(self.column[i].colname.as_str());
            }
            i = i + 1;
        }
        None
    }

    /// Whether a value may stand in a column of the given type.
    pub fn _validate_type_column_and_row(col_type: &ColumnType, value: &Value) -> (r: bool)
        ensures
            r == value@.fits(*col_type),
    {
        match value {
            Value::Empty => true,
            Value::Text(_) => matches!(col_type, ColumnType::Text),
            Value::Char(_) => matches!(col_type, ColumnType::Char),
            Value::Numb(_) => matches!(col_type, ColumnType::Numb),
            Value::Bool(_) => matches!(col_type, ColumnType::Bool),
        }
    }

    /// Whether some row holds `v` in column `c`.
    pub fn column_holds(&self, c: usize, v: &Value) -> (r: bool)
        requires
            self@.rows_reach(c as int),
        ensures
            r == self@.column_holds(c as int, v@),
    {
        self.holds_before(c, v, self.row.len())
    }

    /// Whether some row has a value at position `c` that is `v`. A row too
    /// short to have that position does not count.
    pub fn column_has(&self, c: usize, v: &Value) -> (r: bool)
        ensures
            r == self@.column_has(c as int, v@),
    {
        let mut k: usize = 0;
        while k < self.row.len()
            invariant
                k <= self.row.len(),
                forall|q: int| 0 <= q < k ==> !row_holds(#[trigger] self@.rows[q], c as int, v@),
            decreases self.row.len() - k,
        {
            if c < self.row[k].value.len() && self.row[k].value[c] == *v {
                proof {
                    assert(row_holds(self@.rows[k as int], c as int, v@));
                }
                return true;
            }
            k = k + 1;
        }
        false
    }

    /// Whether some row holds `v` in column `c`, and whether more than one
    /// row does.
    pub fn column_holds_once_twice(&self, c: usize, v: &Value) -> (r: (bool, bool))
        requires
            self@.rows_reach(c as int),
        ensures
            r.0 == self@.column_holds(c as int, v@),
            r.1 == self@.column_holds_twice(c as int, v@),
    {
        let mut once: bool = false;
        let mut twice: bool = false;
        let mut k: usize = 0;
        while k < self.row.len()
            invariant
                k <= self.row.len(),
                self@.rows_reach(c as int),
                once == exists|q: int| 0 <= q < k && (#[trigger] self@.rows[q])[c as int] == v@,
                twice == exists|p: int, q: int|
                    0 <= p < q < k && (#[trigger] self@.rows[p])[c as int] == v@ && (
                    #[trigger] self@.rows[q])[c as int] == v@,
            decreases self.row.len() - k,
        {
            proof {
                assert(c < self@.rows[k as int].len());
            }
            if self.row[k].value[c] == *v {
                proof {
                    assert(self@.rows[k as int][c as int] == v@);
                    if once {
                        let p = choose|p: int|
                            0 <= p < k && (#[trigger] self@.rows[p])[c as int] == v@;
                        assert(self@.rows[p][c as int] == v@ && self@.rows[k as int][c as int]
                            == v@);
                    }
                }
                if once {
                    twice = true;
                }
                once = true;
            }
            k = k + 1;
        }
        (once, twice)
    }

    /// Whether one of the first `n` rows holds `v` in column `c`.
    fn holds_before(&self, c: usize, v: &Value, n: usize) -> (r: bool)
        requires
            self@.rows_reach(c as int),
            n <= self.row.len(),
        ensures
            r == exists|q: int| 0 <= q < n && (#[trigger] self@.rows[q])[c as int] == v@,
    {
        let mut k: usize = 0;
        while k < n
            invariant
                k <= n <= self.row.len(),
                self@.rows_reach(c as int),
                forall|q: int| 0 <= q < k ==> (#[trigger] self@.rows[q])[c as int] != v@,
            decreases n - k,
        {
            proof {
                assert(c < self@.rows[k as int].len());
            }
            if self.row[k].value[c] == *v {
                proof {
                    assert(self@.rows[k as int][c as int] == v@);
                }
                return true;
            }
            k = k + 1;
        }
        false
    }

    /// Checks that a column can become the primary column of a table that
    /// has rows: it holds no `Empty`, no value twice, and only values of its
    /// type. The first of these that fails decides the error.
    pub fn _validate_primary_candidate(&self, col_index: usize) -> (r: Result<(), TableError>)
        requires
            self@.rows_reach(col_index as int),
            col_index < self.column.len(),
        ensures
            match self@.candidate_error(col_index as int) {
                None => r is Ok,
                Some(e) => r matches Err(x) && x@ == e,
            },
    {
        if self.column_holds(col_index, &Value::Empty) {
            return Err(TableError::PrimaryEmptyRejected);
        }
        let mut k: usize = 0;
        while k < self.row.len()
            invariant
                k <= self.row.len(),
                self@.rows_reach(col_index as int),
                col_index < self.column.len(),
                !self@.column_holds(col_index as int, ValueView::Empty),
                forall|p: int, q: int|
                    0 <= p < q < k ==> (#[trigger] self@.rows[p])[col_index as int] != (
                    #[trigger] self@.rows[q])[col_index as int],
            decreases self.row.len() - k,
        {
            proof {
                assert(col_index < self@.rows[k as int].len());
            }
            if self.holds_before(col_index, &self.row[k].value[col_index], k) {
                proof {
                    let p = choose|p: int|
                        0 <= p < k && (#[trigger] self@.rows[p])[col_index as int]
                            == self.row[k as int].value[col_index as int]@;
                    assert(self@.rows[p][col_index as int] == self@.rows[k as int][col_index as int]);
                }
                return Err(TableError::PrimaryDuplicateRejected);
            }
            k = k + 1;
        }
        let mut k: usize = 0;
        while k < self.row.len()
            invariant
                k <= self.row.len(),
                self@.rows_reach(col_index as int),
                col_index < self.column.len(),
                !self@.column_holds(col_index as int, ValueView::Empty),
                !self@.column_repeats(col_index as int),
                forall|q: int|
                    0 <= q < k ==> (#[trigger] self@.rows[q])[col_index as int].fits(
                        self@.columns[col_index as int].coltype,
                    ),
            decreases self.row.len() - k,
        {
            proof {
                assert(col_index < self@.rows[k as int].len());
            }
            if !Self::_validate_type_column_and_row(
                &self.column[col_index].coltype,
                &self.row[k].value[col_index],
            ) {
                proof {
                    assert(!self@.rows[k as int][col_index as int].fits(
                        self@.columns[col_index as int].coltype,
                    ));
                }
                return Err(TableError::TypeMismatch(self.column[col_index].colname.clone()));
            }
            k = k + 1;
        }
        Ok(())
    }

    /// Whether every row has a value at position `c`, as the operations that
    /// look into column `c` require.
    pub fn rows_reach(&self, c: usize) -> (r: bool)
        ensures
            r == self@.rows_reach(c as int),
    {
        let mut k: usize = 0;
        while k < self.row.len()
            invariant
                k <= self.row.len(),
                forall|q: int| 0 <= q < k ==> c < (#[trigger] self@.rows[q]).len(),
            decreases self.row.len() - k,
        {
            if self.row[k].value.len() <= c {
                proof {
                    assert(c >= self@.rows[k as int].len());
                }
                return false;
            }
            k = k + 1;
        }
        true
    }

    /// Whether every row has one value for each column.
    pub fn rows_aligned(&self) -> (r: bool)
        ensures
            r == self@.rows_aligned(),
    {
        let mut k: usize = 0;
        while k < self.row.len()
            invariant
                k <= self.row.len(),
                forall|q: int| 0 <= q < k ==> (#[trigger] self@.rows[q]).len() == self@.columns.len(),
            decreases self.row.len() - k,
        {
            if self.row[k].value.len() != self.column.len() {
                proof {
                    assert(self@.rows[k as int].len() != self@.columns.len());
                }
                return false;
            }
            k = k + 1;
        }
        true
    }

    /// Adds one to the counter and returns its new value.
    pub fn _increment(&mut self) -> (r: i64)
        requires
            old(self)._increment < i64::MAX,
        ensures
            r == old(self)._increment + 1,
            *final(self) == (DataTable { _increment: r, ..*old(self) }),
    {
        self._increment = self._increment + 1;
        self._increment
    }

    /// Takes one from the counter and returns its new value.
    pub fn _decrement(&mut self) -> (r: i64)
        requires
            old(self)._increment > i64::MIN,
        ensures
            r == old(self)._increment - 1,
            *final(self) == (DataTable { _increment: r, ..*old(self) }),
    {
        self._increment = self._increment - 1;
        self._increment
    }
}

} // verus!
