//! The decisions of the interactive menu: what a choice means, and what the
//! texts that a user typed make of the table.

use vstd::prelude::*;
use crate::coercion::{coerce, parse_value};
use crate::error::{ErrorView, TableError};
use crate::model::TableView;
use crate::models::values_view;
use crate::render::texts_view;
use crate::table::{batch_view, outcome, DataTable};
use crate::text::{equals_lowered, lowered, same_text};
use crate::value::{ColumnType, Value, ValueView};

verus! {

/// An entry of the menu.
#[derive(Debug, Clone, Copy, PartialEq, Eq, Structural)]
pub enum MenuChoice {
    AddColumn,
    AddRow,
    SetPrimary,
    UpdateValue,
    Remove,
    ShowTable,
    ShowColumnTypes,
    Exit,
}

/// The entry that a typed choice selects: `1` to `7` in the order of the
/// menu, and `0` to leave.
pub open spec fn menu_choice_of(word: Seq<char>) -> Option<MenuChoice> {
    if word == "1"@ {
        Some(MenuChoice::AddColumn)
    } else if word == "2"@ {
        Some(MenuChoice::AddRow)
    } else if word == "3"@ {
        Some(MenuChoice::SetPrimary)
    } else if word == "4"@ {
        Some(MenuChoice::UpdateValue)
    } else if word == "5"@ {
        Some(MenuChoice::Remove)
    } else if word == "6"@ {
        Some(MenuChoice::ShowTable)
    } else if word == "7"@ {
        Some(MenuChoice::ShowColumnTypes)
    } else if word == "0"@ {
        Some(MenuChoice::Exit)
    } else {
        None
    }
}

/// Reads a choice of the menu.
pub fn menu_choice(input: &str) -> (r: Option<MenuChoice>)
    ensures
        r == menu_choice_of(input@),
{
    if same_text(input, "1") {
        Some(MenuChoice::AddColumn)
    } else if same_text(input, "2") {
        Some(MenuChoice::AddRow)
    } else if same_text(input, "3") {
        Some(MenuChoice::SetPrimary)
    } else if same_text(input, "4") {
        Some(MenuChoice::UpdateValue)
    } else if same_text(input, "5") {
        Some(MenuChoice::Remove)
    } else if same_text(input, "6") {
        Some(MenuChoice::ShowTable)
    } else if same_text(input, "7") {
        Some(MenuChoice::ShowColumnTypes)
    } else if same_text(input, "0") {
        Some(MenuChoice::Exit)
    } else {
        None
    }
}

/// What is to be removed.
#[derive(Debug, Clone, Copy, PartialEq, Eq, Structural)]
pub enum RemovalKind {
    Column,
    Row,
}

/// What a typed word asks to remove: `kolom` a column, `row` rows, in any
/// mix of ASCII capitals and small letters.
pub open spec fn removal_kind_of(word: Seq<char>) -> Option<RemovalKind> {
    if lowered(word) == "kolom"@ {
        Some(RemovalKind::Column)
    } else if lowered(word) == "row"@ {
        Some(RemovalKind::Row)
    } else {
        None
    }
}

/// Reads what is to be removed.
pub fn removal_kind(input: &str) -> (r: Option<RemovalKind>)
    ensures
        r == removal_kind_of(input@),
{
    if equals_lowered(input, "kolom") {
        Some(RemovalKind::Column)
    } else if equals_lowered(input, "row") {
        Some(RemovalKind::Row)
    } else {
        None
    }
}

/// The column type that a word names, in any mix of ASCII capitals and small
/// letters.
pub open spec fn column_type_of(word: Seq<char>) -> Option<ColumnType> {
    if lowered(word) == "text"@ {
        Some(ColumnType::Text)
    } else if lowered(word) == "numb"@ {
        Some(ColumnType::Numb)
    } else if lowered(word) == "bool"@ {
        Some(ColumnType::Bool)
    } else if lowered(word) == "char"@ {
        Some(ColumnType::Char)
    } else {
        None
    }
}

/// Reads the name of a column type.
pub fn column_type_from_text(input: &str) -> (r: Option<ColumnType>)
    ensures
        r == column_type_of(input@),
{
    if equals_lowered(input, "text") {
        Some(ColumnType::Text)
    } else if equals_lowered(input, "numb") {
        Some(ColumnType::Numb)
    } else if equals_lowered(input, "bool") {
        Some(ColumnType::Bool)
    } else if equals_lowered(input, "char") {
        Some(ColumnType::Char)
    } else {
        None
    }
}

/// What adding one column, its type given as a word, makes of a table.
pub open spec fn add_column_from_text(t: TableView, name: Seq<char>, type_word: Seq<char>) -> Result<
    TableView,
    ErrorView,
> {
    match column_type_of(type_word) {
        None => Err(ErrorView::UnknownColumnType(type_word)),
        Some(coltype) => t.add_column(seq![(name, coltype)]),
    }
}

/// What an update makes of a table when the condition and the new value are
/// given as texts: each text is read as a value of the type of its column,
/// the condition first.
pub open spec fn set_value_from_text(
    t: TableView,
    cond_col: Seq<char>,
    cond_text: Seq<char>,
    target_col: Seq<char>,
    new_text: Seq<char>,
) -> Result<TableView, ErrorView> {
    match t.position(cond_col) {
        None => Err(ErrorView::ColumnNotFound(cond_col)),
        Some(ci) => match coerce(t.columns[ci].coltype, cond_text) {
            None => Err(
                ErrorView::InvalidFormat { expected: t.columns[ci].coltype, input: cond_text },
            ),
            Some(cond) => match t.position(target_col) {
                None => Err(ErrorView::ColumnNotFound(target_col)),
                Some(ti) => match coerce(t.columns[ti].coltype, new_text) {
                    None => Err(
                        ErrorView::InvalidFormat {
                            expected: t.columns[ti].coltype,
                            input: new_text,
                        },
                    ),
                    Some(new) => t.set_value_where(cond_col, cond, target_col, new),
                },
            },
        },
    }
}

/// Both columns exist and each text can be read as a value of the type of
/// its column: the update gets as far as looking into the rows.
pub open spec fn texts_readable(
    t: TableView,
    cond_col: Seq<char>,
    cond_text: Seq<char>,
    target_col: Seq<char>,
    new_text: Seq<char>,
) -> bool {
    &&& t.position(cond_col) matches Some(ci)
    &&& coerce(t.columns[ci].coltype, cond_text) is Some
    &&& t.position(target_col) matches Some(ti)
    &&& coerce(t.columns[ti].coltype, new_text) is Some
}

/// What removing rows makes of a table when the value is given as a text,
/// which is read as a value of the type of the column.
pub open spec fn remove_row_from_text(t: TableView, name: Seq<char>, text: Seq<char>) -> Result<
    TableView,
    ErrorView,
> {
    match t.position(name) {
        None => Err(ErrorView::ColumnNotFound(name)),
        Some(c) => match coerce(t.columns[c].coltype, text) {
            None => Err(ErrorView::InvalidFormat { expected: t.columns[c].coltype, input: text }),
            Some(v) => t.remove_row(name, v),
        },
    }
}

/// Text `i` is the first that cannot be read as a value of column `i`.
pub open spec fn first_unreadable(t: TableView, texts: Seq<Seq<char>>, i: int) -> bool {
    &&& 0 <= i < texts.len()
    &&& i < t.columns.len()
    &&& coerce(t.columns[i].coltype, texts[i]) is None
    &&& forall|j: int| 0 <= j < i ==> coerce(t.columns[j].coltype, #[trigger] texts[j]) is Some
}

/// The values that the texts stand for, text `i` read as a value of the type
/// of column `i`.
pub open spec fn read_values(t: TableView, texts: Seq<Seq<char>>) -> Seq<ValueView> {
    Seq::new(texts.len(), |i: int| coerce(t.columns[i].coltype, texts[i])->0)
}

/// What adding a row makes of a table when the values are given as texts,
/// one for each column from the first on: the table must have a primary
/// column and as many columns as there are texts, each text must be readable
/// as a value of the type of its column, and the values are then added as
/// `add_row` adds them.
pub open spec fn add_row_from_text(t: TableView, texts: Seq<Seq<char>>) -> Result<
    TableView,
    ErrorView,
> {
    if t.primary_index is None {
        Err(ErrorView::NoPrimarySet)
    } else if texts.len() > t.columns.len() {
        Err(ErrorView::TooManyValues { given: texts.len(), columns: t.columns.len() })
    } else if exists|i: int| first_unreadable(t, texts, i) {
        Err(
            ErrorView::InvalidFormat {
                expected: t.columns[choose|i: int| first_unreadable(t, texts, i)].coltype,
                input: texts[choose|i: int| first_unreadable(t, texts, i)],
            },
        )
    } else {
        t.add_row(read_values(t, texts))
    }
}

/// The first text that cannot be read is the one that is reported.
proof fn lemma_first_unreadable_found(t: TableView, texts: Seq<Seq<char>>, i: int)
    requires
        first_unreadable(t, texts, i),
    ensures
        (choose|k: int| first_unreadable(t, texts, k)) == i,
{
    let k = choose|k: int| first_unreadable(t, texts, k);
    if k < i {
        assert(coerce(t.columns[k].coltype, texts[k]) is Some);
    } else if i < k {
        assert(coerce(t.columns[i].coltype, texts[i]) is Some);
    }
}

impl DataTable {
    /// Takes the answer for the next value of a row that is being asked for
    /// column by column: the text is read as a value of the type of the
    /// column that comes next and the value is added to those given so far.
    /// The result tells whether the row is complete; a text that cannot be
    /// read changes nothing, and the same column is to be asked for again.
    pub fn take_row_answer(&self, values: &mut Vec<Value>, input: &str) -> (r: Result<
        bool,
        TableError,
    >)
        requires
            old(values)@.len() < self@.columns.len(),
        ensures
            match coerce(self@.columns[old(values)@.len() as int].coltype, input@) {
                Some(v) => r == Ok::<bool, TableError>(
                    final(values)@.len() == self@.columns.len(),
                ) && values_view(final(values)@) == values_view(old(values)@).push(v),
                None => (r matches Err(e) && e@ == (ErrorView::InvalidFormat {
                    expected: self@.columns[old(values)@.len() as int].coltype,
                    input: input@,
                })) && *final(values) == *old(values),
            },
    {
        match self._parse_input_to_value_type(values.len(), input) {
            Ok(v) => {
                values.push(v);
                proof {
                    assert(values_view(values@) =~= values_view(old(values)@).push(v@));
                }
                Ok(values.len() == self.column.len())
            },
            Err(e) => Err(e),
        }
    }

    /// Adds a row whose values are given as texts, one for each column from
    /// the first on.
    pub fn add_row_from_text(&mut self, texts: &Vec<String>) -> (r: Result<(), TableError>)
        ensures
            outcome(
                old(self)@,
                final(self)@,
                r,
                add_row_from_text(old(self)@, texts_view(texts@)),
            ),
            r is Err ==> *final(self) == *old(self),
            old(self)@.well_shaped() ==> final(self)@.well_shaped(),
            old(self)@.wf() ==> final(self)@.wf(),
    {
        if self.primary_index.is_none() {
            return Err(TableError::NoPrimarySet);
        }
        if texts.len() > self.column.len() {
            return Err(
                TableError::TooManyValues { given: texts.len(), columns: self.column.len() },
            );
        }
        let ghost t = self@;
        let ghost words = texts_view(texts@);
        let mut values: Vec<Value> = Vec::new();
        let mut i: usize = 0;
        while i < texts.len()
            invariant
                i <= texts.len() <= self.column.len(),
                *self == *old(self),
                t == self@,
                words == texts_view(texts@),
                self.primary_index is Some,
                values.len() == i,
                forall|j: int|
                    0 <= j < i ==> coerce(t.columns[j].coltype, #[trigger] words[j]) == Some(
                        values@[j]@,
                    ),
            decreases texts.len() - i,
        {
            proof {
                assert(words[i as int] == texts@[i as int]@);
            }
            match self._parse_input_to_value_type(i, texts[i].as_str()) {
                Ok(v) => {
                    values.push(v);
                },
                Err(e) => {
                    proof {
                        assert forall|j: int| 0 <= j < i implies coerce(
                            t.columns[j].coltype,
                            #[trigger] words[j],
                        ) is Some by {}
                        assert(first_unreadable(t, words, i as int));
                        lemma_first_unreadable_found(t, words, i as int);
                    }
                    return Err(e);
                },
            }
            i = i + 1;
        }
        proof {
            assert forall|k: int| !first_unreadable(t, words, k) by {
                if 0 <= k < words.len() {
                    assert(coerce(t.columns[k].coltype, words[k]) is Some);
                }
            }
            assert(values_view(values@) =~= read_values(t, words));
        }
        self.add_row(values)
    }

    /// Adds one column whose type is given as a word.
    pub fn add_column_from_text(&mut self, name: &str, type_word: &str) -> (r: Result<
        (),
        TableError,
    >)
        ensures
            outcome(
                old(self)@,
                final(self)@,
                r,
                add_column_from_text(old(self)@, name@, type_word@),
            ),
            r is Err ==> *final(self) == *old(self),
            old(self)@.well_shaped() ==> final(self)@.well_shaped(),
            old(self)@.wf() ==> final(self)@.wf(),
    {
        match column_type_from_text(type_word) {
            None => Err(TableError::UnknownColumnType(type_word.to_owned())),
            Some(coltype) => {
                let batch = vec![(name, coltype)];
                proof {
                    assert(batch_view(batch@) =~= seq![(name@, coltype)]);
                }
                self.add_column(batch)
            },
        }
    }

    /// Updates rows as `set_value_where` does, with the condition and the
    /// new value given as texts.
    pub fn set_value_from_text(
        &mut self,
        cond_col: &str,
        cond_text: &str,
        target_col: &str,
        new_text: &str,
    ) -> (r: Result<(), TableError>)
        requires
            texts_readable(old(self)@, cond_col@, cond_text@, target_col@, new_text@) ==> old(self)@.rows_reach_both(cond_col@, target_col@),
        ensures
            outcome(
                old(self)@,
                final(self)@,
                r,
                set_value_from_text(old(self)@, cond_col@, cond_text@, target_col@, new_text@),
            ),
            r is Err ==> *final(self) == *old(self),
            old(self)@.well_shaped() ==> final(self)@.well_shaped(),
            old(self)@.wf() ==> final(self)@.wf(),
    {
        let cond_index = match self.column_position(cond_col) {
            Some(i) => i,
            None => {
                return Err(TableError::ColumnNotFound(cond_col.to_owned()));
            },
        };
        let cond_value = match self._parse_input_to_value_type(cond_index, cond_text) {
            Ok(v) => v,
            Err(e) => {
                return Err(e);
            },
        };
        let target_index = match self.column_position(target_col) {
            Some(i) => i,
            None => {
                return Err(TableError::ColumnNotFound(target_col.to_owned()));
            },
        };
        let new_value = match self._parse_input_to_value_type(target_index, new_text) {
            Ok(v) => v,
            Err(e) => {
                return Err(e);
            },
        };
        self.set_value_where(cond_col, cond_value, target_col, new_value)
    }

    /// Removes rows as `remove_row` does, with the value given as a text.
    pub fn remove_row_from_text(&mut self, colname: &str, text: &str) -> (r: Result<(), TableError>)
        ensures
            outcome(
                old(self)@,
                final(self)@,
                r,
                remove_row_from_text(old(self)@, colname@, text@),
            ),
            r is Err ==> *final(self) == *old(self),
            old(self)@.well_shaped() ==> final(self)@.well_shaped(),
            old(self)@.wf() ==> final(self)@.wf(),
    {
        let index = match self.column_position(colname) {
            Some(i) => i,
            None => {
                return Err(TableError::ColumnNotFound(colname.to_owned()));
            },
        };
        let value = match self._parse_input_to_value_type(index, text) {
            Ok(v) => v,
            Err(e) => {
                return Err(e);
            },
        };
        self.remove_row(colname, value)
    }
}

} // verus!
