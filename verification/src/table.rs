//! The table itself and the operations that change it.

use vstd::prelude::*;
use crate::error::{ErrorView, TableError};
use crate::laws::{
    law_add_column_keeps_consistency, law_add_row_keeps_consistency,
    law_remove_column_keeps_the_rest, law_remove_row_keeps_consistency,
    law_set_primary_keeps_consistency, law_set_value_where_keeps_consistency,
};
use crate::model::{
    fresh_column, lemma_rows_without_push, pad_row, rows_without, strip_row, Batch, TableView,
};
use crate::models::{values_view, ColumnTable, ColumnView, RowTable};
use crate::text::same_text;
use crate::value::{ColumnType, Value, ValueView};

verus! {

/// A table: columns, rows, the counter for automatic numbering and the
/// position of the primary column.
#[derive(Debug, PartialEq, Eq)]
pub struct DataTable {
    pub column: Vec<ColumnTable>,
    pub row: Vec<RowTable>,
    pub _increment: i64,
    pub primary_index: Option<usize>,
}

impl View for DataTable {
    type V = TableView;

    open spec fn view(&self) -> TableView {
        TableView {
            columns: self.column@.map_values(|c: ColumnTable| c@),
            rows: self.row@.map_values(|r: RowTable| r@),
            increment: self._increment as int,
            primary_index: match self.primary_index {
                Some(p) => Some(p as int),
                None => None,
            },
        }
    }
}

impl Clone for DataTable {
    fn clone(&self) -> (res: Self)
        ensures
            res@ == self@,
    {
        let mut column: Vec<ColumnTable> = Vec::new();
        let mut i: usize = 0;
        while i < self.column.len()
            invariant
                i <= self.column.len(),
                column@ == self.column@.subrange(0, i as int),
            decreases self.column.len() - i,
        {
            column.push(self.column[i].clone());
            proof {
                assert(column@ =~= self.column@.subrange(0, i + 1));
            }
            i = i + 1;
        }
        let mut row: Vec<RowTable> = Vec::new();
        let mut k: usize = 0;
        while k < self.row.len()
            invariant
                k <= self.row.len(),
                row.len() == k,
                forall|q: int| 0 <= q < k ==> (#[trigger] row@[q])@ == self.row@[q]@,
            decreases self.row.len() - k,
        {
            row.push(self.row[k].clone());
            k = k + 1;
        }
        let res = DataTable {
            column,
            row,
            _increment: self._increment,
            primary_index: self.primary_index,
        };
        proof {
            assert(column@ =~= self.column@);
            assert(res@.rows =~= self@.rows);
        }
        res
    }
}

/// How the result of an operation and the table it leaves relate to what the
/// operation makes of the table it found: on success the table is the new
/// one, on failure the error is the expected one and the table is as before.
pub open spec fn outcome(
    before: TableView,
    after: TableView,
    r: Result<(), TableError>,
    expected: Result<TableView, ErrorView>,
) -> bool {
    match expected {
        Ok(t) => r is Ok && after == t,
        Err(e) => r matches Err(x) && x@ == e && after == before,
    }
}

/// The names and types that a batch of new columns holds.
pub open spec fn batch_view(batch: Seq<(&str, ColumnType)>) -> Batch {
    batch.map_values(|e: (&str, ColumnType)| (e.0@, e.1))
}

/// Whether an entry before entry `j` of the batch has the name of entry `j`.
fn named_before(columns: &Vec<(&str, ColumnType)>, j: usize) -> (r: bool)
    requires
        j < columns.len(),
    ensures
        r == exists|k: int|
            0 <= k < j && (#[trigger] batch_view(columns@)[k]).0 == batch_view(columns@)[j as int].0,
{
    let mut k: usize = 0;
    while k < j
        invariant
            k <= j < columns.len(),
            forall|q: int|
                0 <= q < k ==> (#[trigger] batch_view(columns@)[q]).0 != batch_view(
                    columns@,
                )[j as int].0,
        decreases j - k,
    {
        if same_text(columns[k].0, columns[j].0) {
            proof {
                assert(batch_view(columns@)[k as int].0 == batch_view(columns@)[j as int].0);
            }
            return true;
        }
        k = k + 1;
    }
    false
}

impl DataTable {
    /// A table without columns, rows or primary column.
    pub fn new() -> (t: Self)
        ensures
            t@ == TableView::empty(),
            t@.wf(),
    {
        let t = DataTable {
            column: Vec::new(),
            row: Vec::new(),
            primary_index: None,
            _increment: 0,
        };
        proof {
            assert(t@.columns =~= Seq::empty());
            assert(t@.rows =~= Seq::empty());
        }
        t
    }

    /// The position of the first column of the given name.
    pub fn column_position(&self, name: &str) -> (r: Option<usize>)
        ensures
            match r {
                Some(i) => i < self.column.len() && self@.position(name@) == Some(i as int),
                None => self@.position(name@) is None,
            },
    {
        let mut i: usize = 0;
        while i < self.column.len()
            invariant
                i <= self.column.len(),
                forall|j: int| 0 <= j < i ==> (#[trigger] self@.columns[j]).name != name@,
            decreases self.column.len() - i,
        {
            if same_text(self.column[i].colname.as_str(), name) {
                proof {
                    assert(self@.columns[i as int].name == name@);
                    self@.lemma_position_found(name@, i as int);
                }
                return Some(i);
            }
            i = i + 1;
        }
        proof {
            self@.lemma_position_missing(name@);
        }
        None
    }

    /// Gives every row that holds `cond_value` in the column `cond_col` the
    /// value `new_value` in the column `target_col`. The primary column takes
    /// a new value only in one row, and only a value other than `Empty` that
    /// no row holds there.
    pub fn set_value_where(
        &mut self,
        cond_col: &str,
        cond_value: Value,
        target_col: &str,
        new_value: Value,
    ) -> (r: Result<(), TableError>)
        requires
            old(self)@.rows_reach_both(cond_col@, target_col@),
        ensures
            outcome(
                old(self)@,
                final(self)@,
                r,
                old(self)@.set_value_where(cond_col@, cond_value@, target_col@, new_value@),
            ),
            r is Err ==> *final(self) == *old(self),
            old(self)@.well_shaped() ==> final(self)@.well_shaped(),
            old(self)@.wf() ==> final(self)@.wf(),
    {
        let cond_index = match self.column_position(cond_col) {
            Some(i) => i,
            None => {
                return Err(TableError::ColumnNotFound(cond_col.to_owned()));
            },
        };
        let target_index = match self.column_position(target_col) {
            Some(i) => i,
            None => {
                return Err(TableError::ColumnNotFound(target_col.to_owned()));
            },
        };
        if !Self::_validate_type_column_and_row(&self.column[target_index].coltype, &new_value) {
            return Err(TableError::TypeMismatch(self.column[target_index].colname.clone()));
        }
        let targets_primary = match self.primary_index {
            Some(p) => p == target_index,
            None => false,
        };
        if targets_primary {
            if new_value.is_empty() {
                return Err(TableError::PrimaryEmptyRejected);
            }
            if self.column_holds(target_index, &new_value) {
                return Err(TableError::PrimaryDuplicateRejected);
            }
        }
        let (once, twice) = self.column_holds_once_twice(cond_index, &cond_value);
        if targets_primary && twice {
            return Err(TableError::PrimaryDuplicateRejected);
        }
        if !once {
            return Err(TableError::NoMatchingRow);
        }
        let ghost before = self@;
        let mut k: usize = 0;
        while k < self.row.len()
            invariant
                k <= self.row.len(),
                before == old(self)@,
                before.rows_reach(cond_index as int),
                before.rows_reach(target_index as int),
                self.column == old(self).column,
                self.primary_index == old(self).primary_index,
                self._increment == old(self)._increment,
                self.row.len() == old(self).row.len(),
                forall|q: int|
                    0 <= q < k ==> #[trigger] self@.rows[q] == (if before.rows[q][cond_index as int]
                        == cond_value@ {
                        before.rows[q].update(target_index as int, new_value@)
                    } else {
                        before.rows[q]
                    }),
                forall|q: int| k <= q < self.row.len() ==> #[trigger] self@.rows[q] == before.rows[q],
            decreases self.row.len() - k,
        {
            proof {
                assert(cond_index < before.rows[k as int].len());
                assert(target_index < before.rows[k as int].len());
                assert(self@.rows[k as int] == before.rows[k as int]);
            }
            if self.row[k].value[cond_index] == cond_value {
                let ghost prior = self@;
                self.row[k].value[target_index] = new_value.clone();
                proof {
                    assert(self@.rows[k as int] =~= before.rows[k as int].update(
                        target_index as int,
                        new_value@,
                    ));
                    assert forall|q: int| 0 <= q < self.row.len() && q != k implies #[trigger] self@.rows[q]
                        == prior.rows[q] by {}
                }
            }
            k = k + 1;
        }
        proof {
            let after = before.with_value_where(
                cond_index as int,
                cond_value@,
                target_index as int,
                new_value@,
            );
            assert(self@.rows =~= after.rows);
            assert(self@.columns == after.columns);
            assert(self@ == after);
            if before.well_shaped() {
                law_set_value_where_keeps_consistency(
                    before,
                    cond_col@,
                    cond_value@,
                    target_col@,
                    new_value@,
                );
            }
        }
        Ok(())
    }

    /// Makes the named column the primary column. Naming the column that is
    /// primary already changes nothing. Once the table has rows, the column
    /// must hold a value in every row, no value twice, and only values of its
    /// type.
    pub fn set_primary(&mut self, colname: &str) -> (r: Result<(), TableError>)
        requires
            old(self)@.rows_reach_candidate(colname@),
        ensures
            outcome(old(self)@, final(self)@, r, old(self)@.set_primary(colname@)),
            r is Err ==> *final(self) == *old(self),
            old(self)@.well_shaped() ==> final(self)@.well_shaped(),
            old(self)@.wf() ==> final(self)@.wf(),
    {
        let index = match self.column_position(colname) {
            Some(i) => i,
            None => {
                return Err(TableError::ColumnNotFound(colname.to_owned()));
            },
        };
        let already = match self.primary_index {
            Some(p) => p == index,
            None => false,
        };
        if already {
            return Ok(());
        }
        if self.row.len() > 0 {
            match self._validate_primary_candidate(index) {
                Err(e) => {
                    return Err(e);
                },
                Ok(()) => {},
            }
        }
        let ghost before = self@;
        let mut i: usize = 0;
        while i < self.column.len()
            invariant
                i <= self.column.len(),
                before == old(self)@,
                self.column.len() == old(self).column.len(),
                self.row == old(self).row,
                self._increment == old(self)._increment,
                forall|j: int|
                    0 <= j < i ==> #[trigger] self@.columns[j] == (ColumnView {
                        is_primary: false,
                        ..before.columns[j]
                    }),
                forall|j: int|
                    i <= j < self.column.len() ==> #[trigger] self@.columns[j] == before.columns[j],
            decreases self.column.len() - i,
        {
            let ghost prior = self@;
            proof {
                assert(self@.columns[i as int] == before.columns[i as int]);
            }
            self.column[i].is_primary = false;
            proof {
                assert forall|j: int| 0 <= j < self.column.len() && j != i implies #[trigger] self@.columns[j]
                    == prior.columns[j] by {}
            }
            i = i + 1;
        }
        let ghost prior = self@;
        self.column[index].is_primary = true;
        self.primary_index = Some(index);
        proof {
            assert forall|j: int| 0 <= j < self.column.len() && j != index implies #[trigger] self@.columns[j]
                == prior.columns[j] by {}
            let chosen = before.with_primary(index as int);
            assert forall|j: int| 0 <= j < self@.columns.len() implies #[trigger] self@.columns[j]
                == chosen.columns[j] by {
                if j != index {
                    assert(self@.columns[j] == prior.columns[j]);
                } else {
                    assert(prior.columns[j] == (ColumnView {
                        is_primary: false,
                        ..before.columns[j]
                    }));
                }
            }
            assert(self@.columns =~= chosen.columns);
            assert(self@ == chosen);
            if before.well_shaped() {
                law_set_primary_keeps_consistency(before, colname@);
            }
        }
        Ok(())
    }

    /// Removes the named column and, from every row, the value that stood in
    /// it. The primary column cannot be removed.
    pub fn remove_column(&mut self, colname: &str) -> (r: Result<(), TableError>)
        ensures
            outcome(old(self)@, final(self)@, r, old(self)@.remove_column(colname@)),
            r is Err ==> *final(self) == *old(self),
            old(self)@.well_shaped() ==> final(self)@.well_shaped(),
            old(self)@.wf() ==> final(self)@.wf(),
    {
        let index = match self.column_position(colname) {
            Some(i) => i,
            None => {
                return Err(TableError::ColumnNotFound(colname.to_owned()));
            },
        };
        let is_primary = match self.primary_index {
            Some(p) => p == index,
            None => false,
        };
        if is_primary {
            return Err(TableError::PrimaryColumnProtected(colname.to_owned()));
        }
        let ghost before = self@;
        self.column.remove(index);
        let mut k: usize = 0;
        while k < self.row.len()
            invariant
                k <= self.row.len(),
                before == old(self)@,
                index < before.columns.len(),
                self.column@ == old(self).column@.remove(index as int),
                self.primary_index == old(self).primary_index,
                self._increment == old(self)._increment,
                self.row.len() == old(self).row.len(),
                forall|q: int|
                    0 <= q < k ==> #[trigger] self@.rows[q] == strip_row(
                        before.rows[q],
                        index as int,
                    ),
                forall|q: int| k <= q < self.row.len() ==> #[trigger] self@.rows[q] == before.rows[q],
            decreases self.row.len() - k,
        {
            proof {
                assert(self@.rows[k as int] == before.rows[k as int]);
            }
            if index < self.row[k].value.len() {
                let ghost prior = self@;
                self.row[k].value.remove(index);
                proof {
                    assert(self@.rows[k as int] =~= before.rows[k as int].remove(index as int));
                    assert forall|q: int| 0 <= q < self.row.len() && q != k implies #[trigger] self@.rows[q]
                        == prior.rows[q] by {}
                }
            }
            k = k + 1;
        }
        let ghost stripped = self@.rows;
        proof {
            assert(stripped =~= before.without_column(index as int).rows);
        }
        match self.primary_index {
            Some(p) => {
                if p > index {
                    self.primary_index = Some(p - 1);
                }
            },
            None => {},
        }
        proof {
            let after = before.without_column(index as int);
            assert(self@.columns =~= after.columns);
            assert(self@.rows == stripped);
            assert(self@ == after);
            if before.well_shaped() {
                law_remove_column_keeps_the_rest(before, colname@);
            }
        }
        Ok(())
    }

    /// Appends a batch of columns and pads every row with `Empty` to the new
    /// number of columns. The batch is refused as a whole if one of its names
    /// is taken already, by a column of the table or by an earlier entry of
    /// the batch.
    pub fn add_column(&mut self, columns: Vec<(&str, ColumnType)>) -> (r: Result<(), TableError>)
        ensures
            outcome(old(self)@, final(self)@, r, old(self)@.add_column(batch_view(columns@))),
            r is Err ==> *final(self) == *old(self),
            old(self)@.well_shaped() ==> final(self)@.well_shaped(),
            old(self)@.wf() ==> final(self)@.wf(),
    {
        let ghost before = self@;
        let ghost batch = batch_view(columns@);
        let mut j: usize = 0;
        while j < columns.len()
            invariant
                j <= columns.len(),
                *self == *old(self),
                before == self@,
                batch == batch_view(columns@),
                forall|k: int| 0 <= k < j ==> !#[trigger] before.repeats_name(batch, k),
            decreases columns.len() - j,
        {
            let name: &str = columns[j].0;
            proof {
                before.lemma_position_is_first(name@);
                assert(batch[j as int].0 == name@);
            }
            let taken = match self.column_position(name) {
                Some(_) => true,
                None => named_before(&columns, j),
            };
            if taken {
                proof {
                    assert(before.repeats_name(batch, j as int));
                    before.lemma_first_repeat_found(batch, j as int);
                }
                return Err(TableError::DuplicateColumn(name.to_owned()));
            }
            j = j + 1;
        }
        proof {
            assert forall|j: int| !before.first_repeat(batch, j) by {}
        }
        let mut j: usize = 0;
        while j < columns.len()
            invariant
                j <= columns.len(),
                before == old(self)@,
                batch == batch_view(columns@),
                self.row == old(self).row,
                self.primary_index == old(self).primary_index,
                self._increment == old(self)._increment,
                self@.columns == before.columns + batch.subrange(0, j as int).map_values(
                    |e: (Seq<char>, ColumnType)| fresh_column(e.0, e.1),
                ),
            decreases columns.len() - j,
        {
            let ghost prior = self@;
            self.column.push(
                ColumnTable {
                    colname: columns[j].0.to_owned(),
                    coltype: columns[j].1,
                    is_primary: false,
                    _is_auto_increment: false,
                },
            );
            proof {
                assert(self@.columns =~= prior.columns.push(
                    fresh_column(batch[j as int].0, batch[j as int].1),
                ));
                assert(batch.subrange(0, j + 1) =~= batch.subrange(0, j as int).push(
                    batch[j as int],
                ));
                assert(self@.columns =~= before.columns + batch.subrange(0, j + 1).map_values(
                    |e: (Seq<char>, ColumnType)| fresh_column(e.0, e.1),
                ));
            }
            j = j + 1;
        }
        proof {
            assert(batch.subrange(0, columns.len() as int) =~= batch);
        }
        let col_len = self.column.len();
        let mut k: usize = 0;
        while k < self.row.len()
            invariant
                k <= self.row.len(),
                before == old(self)@,
                col_len == before.columns.len() + batch.len(),
                self@.columns == before.with_columns(batch).columns,
                self.primary_index == old(self).primary_index,
                self._increment == old(self)._increment,
                self.row.len() == old(self).row.len(),
                forall|q: int|
                    0 <= q < k ==> #[trigger] self@.rows[q] == pad_row(before.rows[q], col_len as int),
                forall|q: int| k <= q < self.row.len() ==> #[trigger] self@.rows[q] == before.rows[q],
            decreases self.row.len() - k,
        {
            let ghost start = before.rows[k as int];
            proof {
                assert(self@.rows[k as int] == start);
                assert(self@.rows[k as int] =~= start + Seq::new(0nat, |i: int| ValueView::Empty));
            }
            while self.row[k].value.len() < col_len
                invariant
                    k < self.row.len(),
                    before == old(self)@,
                    start == before.rows[k as int],
                    self@.columns == before.with_columns(batch).columns,
                    self.primary_index == old(self).primary_index,
                    self._increment == old(self)._increment,
                    self.row.len() == old(self).row.len(),
                    start.len() <= self.row[k as int].value.len(),
                    start.len() < col_len ==> self.row[k as int].value.len() <= col_len,
                    start.len() >= col_len ==> self.row[k as int].value.len() == start.len(),
                    self@.rows[k as int] == start + Seq::new(
                        (self.row[k as int].value.len() - start.len()) as nat,
                        |i: int| ValueView::Empty,
                    ),
                    forall|q: int|
                        0 <= q < k ==> #[trigger] self@.rows[q] == pad_row(
                            before.rows[q],
                            col_len as int,
                        ),
                    forall|q: int|
                        k < q < self.row.len() ==> #[trigger] self@.rows[q] == before.rows[q],
                decreases col_len - self.row[k as int].value.len(),
            {
                let ghost prior = self@;
                self.row[k].value.push(Value::Empty);
                proof {
                    assert(self@.rows[k as int] =~= prior.rows[k as int].push(ValueView::Empty));
                    assert(self@.rows[k as int] =~= start + Seq::new(
                        (self.row[k as int].value.len() - start.len()) as nat,
                        |i: int| ValueView::Empty,
                    ));
                    assert forall|q: int| 0 <= q < self.row.len() && q != k implies #[trigger] self@.rows[q]
                        == prior.rows[q] by {}
                }
            }
            proof {
                assert(self@.rows[k as int] =~= pad_row(start, col_len as int));
            }
            k = k + 1;
        }
        proof {
            assert(self@.rows =~= before.with_columns(batch).rows);
            assert(self@ == before.with_columns(batch));
            if before.well_shaped() {
                law_add_column_keeps_consistency(before, batch);
            }
        }
        Ok(())
    }

    /// Appends a row. Values that are missing at the end are taken as
    /// `Empty`; each value must be `Empty` or of the type of its column, and
    /// the value for the primary column must be other than `Empty` and new to
    /// that column.
    pub fn add_row(&mut self, value: Vec<Value>) -> (r: Result<(), TableError>)
        ensures
            outcome(old(self)@, final(self)@, r, old(self)@.add_row(values_view(value@))),
            r is Err ==> *final(self) == *old(self),
            old(self)@.well_shaped() ==> final(self)@.well_shaped(),
            old(self)@.wf() ==> final(self)@.wf(),
    {
        let ghost before = self@;
        let ghost given = values_view(value@);
        let primary = match self.primary_index {
            Some(p) => p,
            None => {
                return Err(TableError::NoPrimarySet);
            },
        };
        let col_len = self.column.len();
        if value.len() > col_len {
            return Err(TableError::TooManyValues { given: value.len(), columns: col_len });
        }
        let mut row = value;
        proof {
            assert(values_view(row@) =~= given + Seq::new(0nat, |i: int| ValueView::Empty));
        }
        while row.len() < col_len
            invariant
                given.len() <= row.len() <= col_len,
                values_view(row@) == given + Seq::new(
                    (row.len() - given.len()) as nat,
                    |i: int| ValueView::Empty,
                ),
            decreases col_len - row.len(),
        {
            let ghost shorter = values_view(row@);
            row.push(Value::Empty);
            proof {
                assert(values_view(row@) =~= shorter.push(ValueView::Empty));
                assert(values_view(row@) =~= given + Seq::new(
                    (row.len() - given.len()) as nat,
                    |i: int| ValueView::Empty,
                ));
            }
        }
        let ghost padded = values_view(row@);
        proof {
            assert(padded =~= pad_row(given, col_len as int));
        }
        let mut i: usize = 0;
        while i < row.len()
            invariant
                i <= row.len(),
                row.len() == col_len,
                col_len == self.column.len(),
                *self == *old(self),
                before == self@,
                padded == values_view(row@),
                padded == pad_row(given, col_len as int),
                given == values_view(value@),
                given.len() <= col_len,
                self.primary_index is Some,
                forall|j: int| 0 <= j < i ==> (#[trigger] padded[j]).fits(before.columns[j].coltype),
            decreases row.len() - i,
        {
            if !Self::_validate_type_column_and_row(&self.column[i].coltype, &row[i]) {
                proof {
                    assert(before.first_mistyped(padded, i as int));
                    before.lemma_first_mistyped_found(padded, i as int);
                }
                return Err(TableError::TypeMismatch(self.column[i].colname.clone()));
            }
            i = i + 1;
        }
        proof {
            assert forall|i: int| !before.first_mistyped(padded, i) by {}
        }
        if primary < row.len() {
            proof {
                assert(padded[primary as int] == row@[primary as int]@);
            }
            if row[primary].is_empty() {
                return Err(TableError::PrimaryEmptyRejected);
            }
            if self.column_has(primary, &row[primary]) {
                return Err(TableError::PrimaryDuplicateRejected);
            }
        }
        self.row.push(RowTable { value: row });
        proof {
            assert(self@.rows =~= before.rows.push(padded));
            if before.well_shaped() {
                law_add_row_keeps_consistency(before, given);
            }
        }
        Ok(())
    }

    /// Removes every row that holds `value` in the named column. That no row
    /// holds it is no failure.
    pub fn remove_row(&mut self, colname: &str, value: Value) -> (r: Result<(), TableError>)
        ensures
            outcome(old(self)@, final(self)@, r, old(self)@.remove_row(colname@, value@)),
            r is Err ==> *final(self) == *old(self),
            old(self)@.well_shaped() ==> final(self)@.well_shaped(),
            old(self)@.wf() ==> final(self)@.wf(),
    {
        let index = match self.column_position(colname) {
            Some(i) => i,
            None => {
                return Err(TableError::ColumnNotFound(colname.to_owned()));
            },
        };
        let ghost before = self@;
        let mut rows: Vec<RowTable> = Vec::new();
        core::mem::swap(&mut self.row, &mut rows);
        let ghost all = rows@;
        proof {
            assert(self@.rows =~= Seq::<Seq<ValueView>>::empty());
            assert(before.rows.subrange(0, 0) =~= Seq::<Seq<ValueView>>::empty());
        }
        for row in it: rows
            invariant
                it.seq() == all,
                all == old(self).row@,
                before == old(self)@,
                self.column == old(self).column,
                self.primary_index == old(self).primary_index,
                self._increment == old(self)._increment,
                self@.rows == rows_without(
                    before.rows.subrange(0, it.index()),
                    index as int,
                    value@,
                ),
        {
            let ghost k = it.index();
            let ghost part = before.rows.subrange(0, k);
            proof {
                assert(row@ == before.rows[k]);
                assert(before.rows.subrange(0, k + 1) =~= part.push(row@));
                lemma_rows_without_push(part, row@, index as int, value@);
            }
            let holds = index < row.value.len() && row.value[index] == value;
            if !holds {
                self.row.push(row);
                proof {
                    assert(self@.rows =~= rows_without(part, index as int, value@).push(row@));
                }
            }
        }
        proof {
            assert(before.rows.subrange(0, all.len() as int) =~= before.rows);
            assert(self@ == before.without_rows(index as int, value@));
            if before.well_shaped() {
                law_remove_row_keeps_consistency(before, colname@, value@);
            }
        }
        Ok(())
    }
}

} // verus!
