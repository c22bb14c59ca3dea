//! The table laid out for display: the text of every cell, and the printable
//! grid that holds these texts.

use vstd::prelude::*;
use crate::model::TableView;
use crate::models::ColumnView;
use crate::table::DataTable;
use crate::text::{char_text, integer_text, render_integer};
use crate::value::{ColumnType, Value, ValueView};

verus! {

/// `prettytable::Table`, a grid of cells that can be printed.
#[verifier::external_type_specification]
#[verifier::external_body]
pub struct ExGrid(prettytable::Table);

/// The contents of the cells of a printable grid, row by row, titles and
/// format left aside.
pub uninterp spec fn grid_texts(grid: prettytable::Table) -> Seq<Seq<Seq<char>>>;

/// The content that a cell of a printable grid keeps of the text it is made
/// from (`prettytable::Cell::new`, which stores the text line by line).
pub uninterp spec fn cell_content(text: Seq<char>) -> Seq<char>;

/// A character that ends a line: a line feed or a carriage return.
pub open spec fn is_line_break(c: char) -> bool {
    c == '\n' || c == '\r'
}

/// The text holds no line break.
pub open spec fn one_line(text: Seq<char>) -> bool {
    forall|i: int| 0 <= i < text.len() ==> !is_line_break(#[trigger] text[i])
}

/// What a cell shows of the text it is made from: a text of one line as it
/// is, any other text as the grid keeps it.
pub open spec fn shown_in_cell(text: Seq<char>) -> Seq<char> {
    if one_line(text) {
        text
    } else {
        cell_content(text)
    }
}

/// What the cells of one row show of their texts.
pub open spec fn contents(texts: Seq<Seq<char>>) -> Seq<Seq<char>> {
    texts.map_values(|text: Seq<char>| shown_in_cell(text))
}

/// What a sequence of texts holds.
pub open spec fn texts_view(cells: Seq<String>) -> Seq<Seq<char>> {
    cells.map_values(|cell: String| cell@)
}

/// The heading of a column: its name, with `*` before it if it is primary.
pub open spec fn heading_text(c: ColumnView) -> Seq<char> {
    if c.is_primary {
        "*"@ + c.name
    } else {
        c.name
    }
}

/// The name of a column type.
pub open spec fn type_text(t: ColumnType) -> Seq<char> {
    match t {
        ColumnType::Text => "Text"@,
        ColumnType::Numb => "Numb"@,
        ColumnType::Bool => "Bool"@,
        ColumnType::Char => "Char"@,
    }
}

/// A value as it is shown: a text as it is, a character alone, a number in
/// base ten, a truth value as `true` or `false`, and `-` for `Empty`.
pub open spec fn value_text(v: ValueView) -> Seq<char> {
    match v {
        ValueView::Text(s) => s,
        ValueView::Char(c) => seq![c],
        ValueView::Numb(n) => integer_text(n as int),
        ValueView::Bool(b) => if b {
            "true"@
        } else {
            "false"@
        },
        ValueView::Empty => "-"@,
    }
}

/// The headings of all columns.
pub open spec fn heading_texts(t: TableView) -> Seq<Seq<char>> {
    t.columns.map_values(|c: ColumnView| heading_text(c))
}

/// The type names of all columns.
pub open spec fn type_texts(t: TableView) -> Seq<Seq<char>> {
    t.columns.map_values(|c: ColumnView| type_text(c.coltype))
}

/// The values of a row as they are shown.
pub open spec fn row_texts(row: Seq<ValueView>) -> Seq<Seq<char>> {
    row.map_values(|v: ValueView| value_text(v))
}

/// The grid that shows the columns: one row of headings, one of type names.
pub open spec fn types_grid(t: TableView) -> Seq<Seq<Seq<char>>> {
    seq![contents(heading_texts(t)), contents(type_texts(t))]
}

/// The grid that shows the data: one row of headings, then one for each row
/// of the table.
pub open spec fn data_grid(t: TableView) -> Seq<Seq<Seq<char>>> {
    seq![contents(heading_texts(t))] + t.rows.map_values(
        |row: Seq<ValueView>| contents(row_texts(row)),
    )
}

/// At position `i` the text opens an escape sequence of a terminal: an
/// escape character stands there, directly followed by `[`.
pub open spec fn opens_escape(text: Seq<char>, i: int) -> bool {
    0 <= i && i + 1 < text.len() && text[i] == '\u{1b}' && text[i + 1] == '['
}

/// The text opens no escape sequence.
pub open spec fn plain_text(text: Seq<char>) -> bool {
    forall|i: int| !#[trigger] opens_escape(text, i)
}

/// None of the texts opens an escape sequence.
pub open spec fn plain_texts(texts: Seq<Seq<char>>) -> bool {
    forall|i: int| 0 <= i < texts.len() ==> plain_text(#[trigger] texts[i])
}

/// The table can be laid out in a grid: neither a heading nor a value, as
/// it is shown, opens an escape sequence.
pub open spec fn printable(t: TableView) -> bool {
    &&& plain_texts(heading_texts(t))
    &&& forall|r: int| 0 <= r < t.rows.len() ==> plain_texts(row_texts(#[trigger] t.rows[r]))
}

/// The names of the column types open no escape sequence.
proof fn lemma_type_texts_plain(t: TableView)
    ensures
        plain_texts(type_texts(t)),
{
    reveal_strlit("Text");
    reveal_strlit("Numb");
    reveal_strlit("Bool");
    reveal_strlit("Char");
    assert forall|i: int| 0 <= i < type_texts(t).len() implies plain_text(
        #[trigger] type_texts(t)[i],
    ) by {
        let text = type_texts(t)[i];
        assert(text.len() == 4);
        assert forall|j: int| !#[trigger] opens_escape(text, j) by {
            if j == 0 {
            } else if j == 1 {
            } else if j == 2 {
            } else {
            }
        }
    }
}

/// What cells show, written cell by cell.
proof fn lemma_contents_by_cell(cells: Seq<String>)
    ensures
        Seq::new(
            cells.len(),
            |i: int|
                if one_line(cells[i]@) {
                    cells[i]@
                } else {
                    cell_content(cells[i]@)
                },
        ) == contents(texts_view(cells)),
{
    assert(Seq::new(
        cells.len(),
        |i: int|
            if one_line(cells[i]@) {
                cells[i]@
            } else {
                cell_content(cells[i]@)
            },
    ) =~= contents(texts_view(cells)));
}

/// `prettytable::Table::new`: a grid without rows.
#[verifier::external_body]
fn new_grid() -> (grid: prettytable::Table)
    ensures
        grid_texts(grid) == Seq::<Seq<Seq<char>>>::empty(),
{
    prettytable::Table::new()
}

/// `prettytable::Table::set_format` with the box-drawing format: the lines
/// around the cells change, the cells do not.
#[verifier::external_body]
fn use_box_format(grid: &mut prettytable::Table)
    ensures
        grid_texts(*final(grid)) == grid_texts(*old(grid)),
{
    grid.set_format(*prettytable::format::consts::FORMAT_BOX_CHARS);
}

/// `prettytable::Table::add_row` with a row of plain cells made from the
/// texts: the row is appended, and a cell made from a text of one line
/// holds that text. A text that opens an escape sequence is left out: in
/// measuring such a text the making of a cell can fail.
#[verifier::external_body]
fn push_row(grid: &mut prettytable::Table, cells: &Vec<String>)
    requires
        plain_texts(texts_view(cells@)),
    ensures
        grid_texts(*final(grid)) == grid_texts(*old(grid)).push(
            Seq::new(
                cells@.len(),
                |i: int|
                    if one_line(cells@[i]@) {
                        cells@[i]@
                    } else {
                        cell_content(cells@[i]@)
                    },
            ),
        ),
{
    grid.add_row(prettytable::Row::new(cells.iter().map(|s| prettytable::Cell::new(s)).collect()));
}

/// `prettytable::Table::add_row` with a row of cells made from the texts and
/// styled as headings (centred, bold, yellow): the row is appended. Of the
/// style nothing is stated. A text that opens an escape sequence is left
/// out, as for a plain row.
#[verifier::external_body]
fn push_heading_row(grid: &mut prettytable::Table, cells: &Vec<String>)
    requires
        plain_texts(texts_view(cells@)),
    ensures
        grid_texts(*final(grid)) == grid_texts(*old(grid)).push(
            Seq::new(
                cells@.len(),
                |i: int|
                    if one_line(cells@[i]@) {
                        cells@[i]@
                    } else {
                        cell_content(cells@[i]@)
                    },
            ),
        ),
{
    grid.add_row(
        prettytable::Row::new(
            cells.iter().map(
                |s|
                    prettytable::Cell::new(s).style_spec("c").with_style(
                        prettytable::Attr::Bold,
                    ).with_style(prettytable::Attr::ForegroundColor(prettytable::color::YELLOW)),
            ).collect(),
        ),
    );
}

/// Whether a text opens no escape sequence.
pub fn is_plain(s: &str) -> (r: bool)
    ensures
        r == plain_text(s@),
{
    let mut plain: bool = true;
    let mut after_escape: bool = false;
    for c in it: s.chars()
        invariant
            it.seq() == s@,
            after_escape == (it.index() > 0 && s@[it.index() - 1] == '\u{1b}'),
            plain == (forall|i: int| i + 1 < it.index() ==> !#[trigger] opens_escape(s@, i)),
    {
        let ghost k = it.index();
        if after_escape && c == '[' {
            plain = false;
            proof {
                assert(opens_escape(s@, k - 1));
            }
        }
        after_escape = c == '\u{1b}';
    }
    plain
}

/// Whether none of the texts opens an escape sequence.
pub fn all_plain(cells: &Vec<String>) -> (r: bool)
    ensures
        r == plain_texts(texts_view(cells@)),
{
    let mut i: usize = 0;
    while i < cells.len()
        invariant
            i <= cells.len(),
            forall|j: int| 0 <= j < i ==> plain_text(#[trigger] texts_view(cells@)[j]),
        decreases cells.len() - i,
    {
        if !is_plain(cells[i].as_str()) {
            proof {
                assert(!plain_text(texts_view(cells@)[i as int]));
            }
            return false;
        }
        i = i + 1;
    }
    true
}

/// A value as it is shown.
pub fn value_cell(v: &Value) -> (s: String)
    ensures
        s@ == value_text(v@),
{
    match v {
        Value::Text(t) => t.clone(),
        Value::Char(c) => char_text(*c),
        Value::Numb(n) => render_integer(*n),
        Value::Bool(b) => if *b {
            "true".to_owned()
        } else {
            "false".to_owned()
        },
        Value::Empty => "-".to_owned(),
    }
}

/// The name of a column type.
pub fn type_cell(t: ColumnType) -> (s: String)
    ensures
        s@ == type_text(t),
{
    match t {
        ColumnType::Text => "Text".to_owned(),
        ColumnType::Numb => "Numb".to_owned(),
        ColumnType::Bool => "Bool".to_owned(),
        ColumnType::Char => "Char".to_owned(),
    }
}

impl DataTable {
    /// The headings of the columns: each name, with `*` before the name of
    /// the primary column.
    pub fn heading_cells(&self) -> (cells: Vec<String>)
        ensures
            texts_view(cells@) == heading_texts(self@),
    {
        let mut cells: Vec<String> = Vec::new();
        let mut i: usize = 0;
        while i < self.column.len()
            invariant
                i <= self.column.len(),
                cells.len() == i,
                forall|j: int| 0 <= j < i ==> (#[trigger] cells@[j])@ == heading_text(self@.columns[j]),
            decreases self.column.len() - i,
        {
            let cell = if self.column[i].is_primary {
                let mut s = "*".to_owned();
                s.append(self.column[i].colname.as_str());
                s
            } else {
                self.column[i].colname.clone()
            };
            cells.push(cell);
            i = i + 1;
        }
        proof {
            assert(texts_view(cells@) =~= heading_texts(self@));
        }
        cells
    }

    /// The type names of the columns.
    pub fn type_cells(&self) -> (cells: Vec<String>)
        ensures
            texts_view(cells@) == type_texts(self@),
    {
        let mut cells: Vec<String> = Vec::new();
        let mut i: usize = 0;
        while i < self.column.len()
            invariant
                i <= self.column.len(),
                cells.len() == i,
                forall|j: int|
                    0 <= j < i ==> (#[trigger] cells@[j])@ == type_text(self@.columns[j].coltype),
            decreases self.column.len() - i,
        {
            cells.push(type_cell(self.column[i].coltype));
            i = i + 1;
        }
        proof {
            assert(texts_view(cells@) =~= type_texts(self@));
        }
        cells
    }

    /// The values of row `r` as they are shown.
    pub fn row_cells(&self, r: usize) -> (cells: Vec<String>)
        requires
            r < self.row.len(),
        ensures
            texts_view(cells@) == row_texts(self@.rows[r as int]),
    {
        let mut cells: Vec<String> = Vec::new();
        let mut i: usize = 0;
        while i < self.row[r].value.len()
            invariant
                r < self.row.len(),
                i <= self.row[r as int].value.len(),
                cells.len() == i,
                forall|j: int|
                    0 <= j < i ==> (#[trigger] cells@[j])@ == value_text(self@.rows[r as int][j]),
            decreases self.row[r as int].value.len() - i,
        {
            cells.push(value_cell(&self.row[r].value[i]));
            i = i + 1;
        }
        proof {
            assert(texts_view(cells@) =~= row_texts(self@.rows[r as int]));
        }
        cells
    }

    /// Whether no heading opens an escape sequence, as `show_column_types`
    /// requires.
    pub fn has_plain_headings(&self) -> (r: bool)
        ensures
            r == plain_texts(heading_texts(self@)),
    {
        let headings = self.heading_cells();
        all_plain(&headings)
    }

    /// Whether the table can be laid out in a grid, as `show_data_table`
    /// requires.
    pub fn is_printable(&self) -> (r: bool)
        ensures
            r == printable(self@),
    {
        if !self.has_plain_headings() {
            return false;
        }
        let mut k: usize = 0;
        while k < self.row.len()
            invariant
                k <= self.row.len(),
                plain_texts(heading_texts(self@)),
                forall|q: int| 0 <= q < k ==> plain_texts(row_texts(#[trigger] self@.rows[q])),
            decreases self.row.len() - k,
        {
            let cells = self.row_cells(k);
            if !all_plain(&cells) {
                proof {
                    assert(!plain_texts(row_texts(self@.rows[k as int])));
                }
                return false;
            }
            k = k + 1;
        }
        true
    }

    /// The grid that shows the columns and their types, ready to be printed.
    pub fn show_column_types(&self) -> (grid: prettytable::Table)
        requires
            plain_texts(heading_texts(self@)),
        ensures
            grid_texts(grid) == types_grid(self@),
    {
        let mut grid = new_grid();
        let headings = self.heading_cells();
        push_row(&mut grid, &headings);
        let types = self.type_cells();
        proof {
            lemma_type_texts_plain(self@);
        }
        push_row(&mut grid, &types);
        proof {
            lemma_contents_by_cell(headings@);
            lemma_contents_by_cell(types@);
            assert(grid_texts(grid) =~= types_grid(self@));
        }
        grid
    }

    /// The grid that shows the table, headings first, ready to be printed.
    pub fn show_data_table(&self) -> (grid: prettytable::Table)
        requires
            printable(self@),
        ensures
            grid_texts(grid) == data_grid(self@),
    {
        let mut grid = new_grid();
        use_box_format(&mut grid);
        let headings = self.heading_cells();
        push_heading_row(&mut grid, &headings);
        proof {
            lemma_contents_by_cell(headings@);
            assert(self@.rows.subrange(0, 0).map_values(
                |row: Seq<ValueView>| contents(row_texts(row)),
            ) =~= Seq::<Seq<Seq<char>>>::empty());
            assert(grid_texts(grid) =~= seq![contents(heading_texts(self@))]
                + self@.rows.subrange(0, 0).map_values(
                |row: Seq<ValueView>| contents(row_texts(row)),
            ));
        }
        let mut r: usize = 0;
        while r < self.row.len()
            invariant
                r <= self.row.len(),
                printable(self@),
                grid_texts(grid) == seq![contents(heading_texts(self@))] + self@.rows.subrange(
                    0,
                    r as int,
                ).map_values(|row: Seq<ValueView>| contents(row_texts(row))),
            decreases self.row.len() - r,
        {
            let cells = self.row_cells(r);
            proof {
                assert(plain_texts(row_texts(self@.rows[r as int])));
            }
            push_row(&mut grid, &cells);
            proof {
                lemma_contents_by_cell(cells@);
                assert(self@.rows.subrange(0, r + 1) =~= self@.rows.subrange(0, r as int).push(
                    self@.rows[r as int],
                ));
                assert(grid_texts(grid) =~= seq![contents(heading_texts(self@))]
                    + self@.rows.subrange(0, r + 1).map_values(
                    |row: Seq<ValueView>| contents(row_texts(row)),
                ));
            }
            r = r + 1;
        }
        proof {
            assert(self@.rows.subrange(0, self.row.len() as int) =~= self@.rows);
        }
        grid
    }
}

} // verus!
