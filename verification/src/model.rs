//! The table as a mathematical value: what a table holds, which tables are
//! consistent, and what each operation makes of a table.

use vstd::prelude::*;
use crate::error::ErrorView;
use crate::models::ColumnView;
use crate::value::{ColumnType, ValueView};

verus! {

/// The mathematical content of a table.
pub struct TableView {
    /// The columns, in display order.
    pub columns: Seq<ColumnView>,
    /// The rows, in insertion order, each a sequence of values.
    pub rows: Seq<Seq<ValueView>>,
    /// The counter kept for automatic numbering.
    pub increment: int,
    /// The position of the primary column, if one is chosen.
    pub primary_index: Option<int>,
}

/// A column as `add_column` creates it: not primary, not numbered.
pub open spec fn fresh_column(name: Seq<char>, coltype: ColumnType) -> ColumnView {
    ColumnView { name, coltype, is_primary: false, auto_increment: false }
}

/// A row extended at its end with `Empty` until it has `n` values; a row that
/// has `n` values or more is left alone.
pub open spec fn pad_row(row: Seq<ValueView>, n: int) -> Seq<ValueView> {
    if row.len() < n {
        row + Seq::new((n - row.len()) as nat, |i: int| ValueView::Empty)
    } else {
        row
    }
}

/// A row without the value at position `c`; a row too short to have that
/// position is left alone.
pub open spec fn strip_row(row: Seq<ValueView>, c: int) -> Seq<ValueView> {
    if 0 <= c < row.len() {
        row.remove(c)
    } else {
        row
    }
}

/// Whether a row holds `v` at position `c`.
pub open spec fn row_holds(row: Seq<ValueView>, c: int, v: ValueView) -> bool {
    0 <= c < row.len() && row[c] == v
}

/// The rows that do not hold `v` at position `c`, in their order.
pub open spec fn rows_without(rows: Seq<Seq<ValueView>>, c: int, v: ValueView) -> Seq<
    Seq<ValueView>,
> {
    rows.filter(|row: Seq<ValueView>| !row_holds(row, c, v))
}

/// Dropping rows from a sequence with one more row: the new row stays unless
/// it holds the value.
pub proof fn lemma_rows_without_push(
    rows: Seq<Seq<ValueView>>,
    row: Seq<ValueView>,
    c: int,
    v: ValueView,
)
    ensures
        rows_without(rows.push(row), c, v) == if row_holds(row, c, v) {
            rows_without(rows, c, v)
        } else {
            rows_without(rows, c, v).push(row)
        },
{
    reveal_with_fuel(Seq::filter, 2);
    assert(rows.push(row).drop_last() =~= rows);
}

/// The names and types of a batch of new columns.
pub type Batch = Seq<(Seq<char>, ColumnType)>;

impl TableView {
    /// The table without columns or rows.
    pub open spec fn empty() -> TableView {
        TableView {
            columns: Seq::empty(),
            rows: Seq::empty(),
            increment: 0,
            primary_index: None,
        }
    }

    // ----- consistency -----
    /// Every row has one value for each column.
    pub open spec fn rows_aligned(self) -> bool {
        forall|r: int| 0 <= r < self.rows.len() ==> (#[trigger] self.rows[r]).len() == self.columns.len()
    }

    /// Every row has a value at position `c`.
    pub open spec fn rows_reach(self, c: int) -> bool {
        forall|r: int| 0 <= r < self.rows.len() ==> c < (#[trigger] self.rows[r]).len()
    }

    /// Every row has a value in the named column, if there is such a column
    /// and it is not the primary column already.
    pub open spec fn rows_reach_candidate(self, name: Seq<char>) -> bool {
        self.position(name) matches Some(c) ==> self.primary_index == Some(c) || self.rows_reach(c)
    }

    /// Every row has a value in each of the two named columns, if there are
    /// such columns.
    pub open spec fn rows_reach_both(self, first: Seq<char>, second: Seq<char>) -> bool {
        self.position(first) is Some && self.position(second) is Some ==> self.rows_reach(
            self.position(first)->0,
        ) && self.rows_reach(self.position(second)->0)
    }

    /// The primary flags and the primary position agree: the position, if
    /// set, is that of the one flagged column, and without a position no
    /// column is flagged.
    pub open spec fn primary_consistent(self) -> bool {
        match self.primary_index {
            Some(p) => 0 <= p < self.columns.len() && forall|c: int|
                0 <= c < self.columns.len() ==> ((#[trigger] self.columns[c]).is_primary <==> c
                    == p),
            None => forall|c: int|
                0 <= c < self.columns.len() ==> !(#[trigger] self.columns[c]).is_primary,
        }
    }

    /// Column `c` holds a value in every row, and no value twice.
    pub open spec fn is_key(self, c: int) -> bool {
        &&& forall|r: int|
            0 <= r < self.rows.len() ==> (#[trigger] self.rows[r])[c] != ValueView::Empty
        &&& forall|r: int, q: int|
            0 <= r < q < self.rows.len() ==> (#[trigger] self.rows[r])[c] != (
            #[trigger] self.rows[q])[c]
    }

    /// The primary column, if one is chosen, is a key.
    pub open spec fn primary_unique(self) -> bool {
        self.primary_index matches Some(p) ==> self.is_key(p)
    }

    /// Every value is `Empty` or of the type of its column.
    pub open spec fn rows_typed(self) -> bool {
        forall|r: int, c: int|
            0 <= r < self.rows.len() && 0 <= c < self.rows[r].len() && c < self.columns.len()
                ==> (#[trigger] self.rows[r][c]).fits(self.columns[c].coltype)
    }

    /// No two columns have the same name.
    pub open spec fn names_unique(self) -> bool {
        forall|i: int, j: int|
            0 <= i < j < self.columns.len() ==> (#[trigger] self.columns[i]).name != (
            #[trigger] self.columns[j]).name
    }

    /// The table is consistent in its shape: rows and columns fit, the
    /// primary flags agree with the primary position, every value has the
    /// type of its column, and no column name occurs twice.
    pub open spec fn well_shaped(self) -> bool {
        &&& self.rows_aligned()
        &&& self.primary_consistent()
        &&& self.rows_typed()
        &&& self.names_unique()
    }

    /// The table is consistent in every respect: in its shape, and in that
    /// its primary column is a key.
    pub open spec fn wf(self) -> bool {
        &&& self.well_shaped()
        &&& self.primary_unique()
    }

    // ----- looking up a column -----
    /// Some column has the given name.
    pub open spec fn has_column(self, name: Seq<char>) -> bool {
        exists|i: int| 0 <= i < self.columns.len() && (#[trigger] self.columns[i]).name == name
    }

    /// Column `i` is the first column of the given name.
    pub open spec fn first_named(self, name: Seq<char>, i: int) -> bool {
        &&& 0 <= i < self.columns.len()
        &&& self.columns[i].name == name
        &&& forall|j: int| 0 <= j < i ==> (#[trigger] self.columns[j]).name != name
    }

    /// The position of the first column of the given name.
    pub open spec fn position(self, name: Seq<char>) -> Option<int> {
        if exists|i: int| self.first_named(name, i) {
            Some(choose|i: int| self.first_named(name, i))
        } else {
            None
        }
    }

    /// Column `i` is the first column flagged as primary.
    pub open spec fn first_flagged_primary(self, i: int) -> bool {
        &&& 0 <= i < self.columns.len()
        &&& self.columns[i].is_primary
        &&& forall|j: int| 0 <= j < i ==> !(#[trigger] self.columns[j]).is_primary
    }

    /// Column `i` is the first column flagged for automatic numbering.
    pub open spec fn first_flagged_numbered(self, i: int) -> bool {
        &&& 0 <= i < self.columns.len()
        &&& self.columns[i].auto_increment
        &&& forall|j: int| 0 <= j < i ==> !(#[trigger] self.columns[j]).auto_increment
    }

    // ----- choosing the primary column -----
    /// Some row holds `v` in column `c`.
    pub open spec fn column_holds(self, c: int, v: ValueView) -> bool {
        exists|r: int| 0 <= r < self.rows.len() && (#[trigger] self.rows[r])[c] == v
    }

    /// Two rows hold the same value in column `c`.
    pub open spec fn column_repeats(self, c: int) -> bool {
        exists|r: int, q: int|
            0 <= r < q < self.rows.len() && (#[trigger] self.rows[r])[c] == (
            #[trigger] self.rows[q])[c]
    }

    /// Some row holds in column `c` a value that is not of the column's type.
    pub open spec fn column_mistyped(self, c: int) -> bool {
        exists|r: int|
            0 <= r < self.rows.len() && !(#[trigger] self.rows[r])[c].fits(self.columns[c].coltype)
    }

    /// Why column `c` cannot become the primary column, if it cannot: it
    /// holds `Empty`, else it holds a value twice, else it holds a value of
    /// the wrong type.
    pub open spec fn candidate_error(self, c: int) -> Option<ErrorView> {
        if self.column_holds(c, ValueView::Empty) {
            Some(ErrorView::PrimaryEmptyRejected)
        } else if self.column_repeats(c) {
            Some(ErrorView::PrimaryDuplicateRejected)
        } else if self.column_mistyped(c) {
            Some(ErrorView::TypeMismatch(self.columns[c].name))
        } else {
            None
        }
    }

    /// The table with column `c` flagged as the only primary column.
    pub open spec fn with_primary(self, c: int) -> TableView {
        TableView {
            columns: Seq::new(
                self.columns.len(),
                |i: int| ColumnView { is_primary: i == c, ..self.columns[i] },
            ),
            primary_index: Some(c),
            ..self
        }
    }

    /// What `set_primary` makes of the table. Naming the column that is
    /// primary already changes nothing. On a table without rows any column
    /// can be chosen; with rows, only one that passes as a candidate.
    pub open spec fn set_primary(self, name: Seq<char>) -> Result<TableView, ErrorView> {
        match self.position(name) {
            None => Err(ErrorView::ColumnNotFound(name)),
            Some(c) => if self.primary_index == Some(c) {
                Ok(self)
            } else if self.rows.len() > 0 && self.candidate_error(c) is Some {
                Err(self.candidate_error(c)->0)
            } else {
                Ok(self.with_primary(c))
            },
        }
    }

    // ----- adding columns -----
    /// Entry `j` of the batch names a column that the table has already or
    /// that an earlier entry of the batch names.
    pub open spec fn repeats_name(self, batch: Batch, j: int) -> bool {
        self.has_column(batch[j].0) || exists|k: int| 0 <= k < j && (#[trigger] batch[k]).0 == batch[j].0
    }

    /// Entry `j` is the first entry of the batch whose name is taken.
    pub open spec fn first_repeat(self, batch: Batch, j: int) -> bool {
        &&& 0 <= j < batch.len()
        &&& self.repeats_name(batch, j)
        &&& forall|k: int| 0 <= k < j ==> !#[trigger] self.repeats_name(batch, k)
    }

    /// The table with the batch appended to its columns and every row padded
    /// to the new number of columns.
    pub open spec fn with_columns(self, batch: Batch) -> TableView {
        TableView {
            columns: self.columns + batch.map_values(
                |e: (Seq<char>, ColumnType)| fresh_column(e.0, e.1),
            ),
            rows: self.rows.map_values(
                |row: Seq<ValueView>| pad_row(row, (self.columns.len() + batch.len()) as int),
            ),
            ..self
        }
    }

    /// What `add_column` makes of the table. The batch is refused as a whole
    /// if one of its names is taken, by the table or by an earlier entry; the
    /// error names the first such entry.
    pub open spec fn add_column(self, batch: Batch) -> Result<TableView, ErrorView> {
        if exists|j: int| self.first_repeat(batch, j) {
            Err(ErrorView::DuplicateColumn(batch[choose|j: int| self.first_repeat(batch, j)].0))
        } else {
            Ok(self.with_columns(batch))
        }
    }

    // ----- removing a column -----
    /// The table without column `c`: the column is gone, every row has lost
    /// the value at that position, and the primary position has moved down
    /// by one if it lay behind `c`.
    pub open spec fn without_column(self, c: int) -> TableView {
        TableView {
            columns: self.columns.remove(c),
            rows: self.rows.map_values(|row: Seq<ValueView>| strip_row(row, c)),
            primary_index: match self.primary_index {
                Some(p) => if p > c {
                    Some(p - 1)
                } else {
                    Some(p)
                },
                None => None,
            },
            ..self
        }
    }

    /// What `remove_column` makes of the table.
    pub open spec fn remove_column(self, name: Seq<char>) -> Result<TableView, ErrorView> {
        match self.position(name) {
            None => Err(ErrorView::ColumnNotFound(name)),
            Some(c) => if self.primary_index == Some(c) {
                Err(ErrorView::PrimaryColumnProtected(name))
            } else {
                Ok(self.without_column(c))
            },
        }
    }

    // ----- adding a row -----
    /// Position `i` is the first at which the row holds a value that is not
    /// of its column's type.
    pub open spec fn first_mistyped(self, row: Seq<ValueView>, i: int) -> bool {
        &&& 0 <= i < row.len()
        &&& i < self.columns.len()
        &&& !row[i].fits(self.columns[i].coltype)
        &&& forall|j: int| 0 <= j < i ==> (#[trigger] row[j]).fits(self.columns[j].coltype)
    }

    /// Some row has a value at position `c`, and that value is `v`.
    pub open spec fn column_has(self, c: int, v: ValueView) -> bool {
        exists|r: int| 0 <= r < self.rows.len() && row_holds(#[trigger] self.rows[r], c, v)
    }

    /// The new row cannot be added for the value it holds in primary column
    /// `p`: that value is `Empty`, or some row holds it there already.
    pub open spec fn key_error(self, row: Seq<ValueView>, p: int) -> Option<ErrorView> {
        if row_holds(row, p, ValueView::Empty) {
            Some(ErrorView::PrimaryEmptyRejected)
        } else if 0 <= p < row.len() && self.column_has(p, row[p]) {
            Some(ErrorView::PrimaryDuplicateRejected)
        } else {
            None
        }
    }

    /// What `add_row` makes of the table. The values are padded with `Empty`
    /// to the number of columns. A value that does not have the type of its
    /// column is an error that names the first such column; after that, the
    /// value for the primary column must be other than `Empty` and new to
    /// that column.
    pub open spec fn add_row(self, values: Seq<ValueView>) -> Result<TableView, ErrorView> {
        let row = pad_row(values, self.columns.len() as int);
        if self.primary_index is None {
            Err(ErrorView::NoPrimarySet)
        } else if values.len() > self.columns.len() {
            Err(ErrorView::TooManyValues { given: values.len(), columns: self.columns.len() })
        } else if exists|i: int| self.first_mistyped(row, i) {
            Err(
                ErrorView::TypeMismatch(
                    self.columns[choose|i: int| self.first_mistyped(row, i)].name,
                ),
            )
        } else if self.key_error(row, self.primary_index->0) is Some {
            Err(self.key_error(row, self.primary_index->0)->0)
        } else {
            Ok(TableView { rows: self.rows.push(row), ..self })
        }
    }

    /// Two rows hold `v` in column `c`.
    pub open spec fn column_holds_twice(self, c: int, v: ValueView) -> bool {
        exists|r: int, q: int|
            0 <= r < q < self.rows.len() && (#[trigger] self.rows[r])[c] == v && (
            #[trigger] self.rows[q])[c] == v
    }

    // ----- updating values -----
    /// The table in which every row that holds `cond` in column `ci` holds
    /// `new` in column `ti`.
    pub open spec fn with_value_where(
        self,
        ci: int,
        cond: ValueView,
        ti: int,
        new: ValueView,
    ) -> TableView {
        TableView {
            rows: self.rows.map_values(
                |row: Seq<ValueView>|
                    if row[ci] == cond {
                        row.update(ti, new)
                    } else {
                        row
                    },
            ),
            ..self
        }
    }

    /// What `set_value_where` makes of the table. A new value for the primary
    /// column may not be `Empty` nor a value that any row holds there, the
    /// rows that are to change included; and it may not go to more than one
    /// row, which would make the column hold it twice.
    pub open spec fn set_value_where(
        self,
        cond_col: Seq<char>,
        cond: ValueView,
        target_col: Seq<char>,
        new: ValueView,
    ) -> Result<TableView, ErrorView> {
        match (self.position(cond_col), self.position(target_col)) {
            (None, _) => Err(ErrorView::ColumnNotFound(cond_col)),
            (Some(_), None) => Err(ErrorView::ColumnNotFound(target_col)),
            (Some(ci), Some(ti)) => if !new.fits(self.columns[ti].coltype) {
                Err(ErrorView::TypeMismatch(self.columns[ti].name))
            } else if self.primary_index == Some(ti) && new == ValueView::Empty {
                Err(ErrorView::PrimaryEmptyRejected)
            } else if self.primary_index == Some(ti) && (self.column_holds(ti, new)
                || self.column_holds_twice(ci, cond)) {
                Err(ErrorView::PrimaryDuplicateRejected)
            } else if !self.column_holds(ci, cond) {
                Err(ErrorView::NoMatchingRow)
            } else {
                Ok(self.with_value_where(ci, cond, ti, new))
            },
        }
    }

    // ----- removing rows -----
    /// The table without the rows that hold `v` in column `c`.
    pub open spec fn without_rows(self, c: int, v: ValueView) -> TableView {
        TableView { rows: rows_without(self.rows, c, v), ..self }
    }

    /// What `remove_row` makes of the table. That no row holds the value is
    /// no failure.
    pub open spec fn remove_row(self, name: Seq<char>, v: ValueView) -> Result<
        TableView,
        ErrorView,
    > {
        match self.position(name) {
            None => Err(ErrorView::ColumnNotFound(name)),
            Some(c) => Ok(self.without_rows(c, v)),
        }
    }

    // ----- facts that the operations rest on -----
    /// The first entry of a batch whose name is taken is the one that
    /// `add_column` reports.
    pub proof fn lemma_first_repeat_found(self, batch: Batch, j: int)
        requires
            self.first_repeat(batch, j),
        ensures
            self.add_column(batch) == Err::<TableView, ErrorView>(
                ErrorView::DuplicateColumn(batch[j].0),
            ),
    {
        let k = choose|k: int| self.first_repeat(batch, k);
        if k < j {
            assert(!self.repeats_name(batch, k));
        } else if j < k {
            assert(!self.repeats_name(batch, j));
        }
    }

    /// The first mistyped value of a row is the one that `add_row` reports.
    pub proof fn lemma_first_mistyped_found(self, row: Seq<ValueView>, i: int)
        requires
            self.first_mistyped(row, i),
        ensures
            (choose|k: int| self.first_mistyped(row, k)) == i,
    {
        let k = choose|k: int| self.first_mistyped(row, k);
        if k < i {
            assert(row[k].fits(self.columns[k].coltype));
        } else if i < k {
            assert(row[i].fits(self.columns[i].coltype));
        }
    }

    /// The first column of a name is the position of that name.
    pub proof fn lemma_position_found(self, name: Seq<char>, i: int)
        requires
            self.first_named(name, i),
        ensures
            self.position(name) == Some(i),
    {
        let k = choose|k: int| self.first_named(name, k);
        if k < i {
            assert(self.columns[k].name != name);
        } else if i < k {
            assert(self.columns[i].name != name);
        }
    }

    /// A name that no column has has no position.
    pub proof fn lemma_position_missing(self, name: Seq<char>)
        requires
            forall|j: int| 0 <= j < self.columns.len() ==> (#[trigger] self.columns[j]).name != name,
        ensures
            self.position(name) is None,
            !self.has_column(name),
    {
    }

    /// What a position says of its column.
    pub proof fn lemma_position_is_first(self, name: Seq<char>)
        ensures
            self.position(name) matches Some(i) ==> self.first_named(name, i),
            self.position(name) is Some <==> self.has_column(name),
    {
        if self.has_column(name) {
            let i = choose|i: int|
                0 <= i < self.columns.len() && (#[trigger] self.columns[i]).name == name;
            self.lemma_first_exists(name, i);
        }
    }

    /// Below any column of a name there is a first one.
    proof fn lemma_first_exists(self, name: Seq<char>, i: int)
        requires
            0 <= i < self.columns.len(),
            self.columns[i].name == name,
        ensures
            exists|k: int| self.first_named(name, k),
        decreases i,
    {
        if exists|j: int| 0 <= j < i && (#[trigger] self.columns[j]).name == name {
            let j = choose|j: int| 0 <= j < i && (#[trigger] self.columns[j]).name == name;
            self.lemma_first_exists(name, j);
        } else {
            assert(self.first_named(name, i));
        }
    }
}

} // verus!
