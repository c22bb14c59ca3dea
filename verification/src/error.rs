//! The failures that table operations report.

use vstd::prelude::*;
use crate::text::{natural_text, push_natural};
use crate::value::ColumnType;

verus! {

/// Why an operation was refused. A refused operation leaves the table as it
/// was.
#[derive(Debug, PartialEq, Eq)]
pub enum TableError {
    /// No column has the given name.
    ColumnNotFound(String),
    /// A column of the given name exists already.
    DuplicateColumn(String),
    /// The named column is the primary column and cannot be removed.
    PrimaryColumnProtected(String),
    /// Rows cannot be added before a primary column is chosen.
    NoPrimarySet,
    /// A row was given more values than the table has columns.
    TooManyValues { given: usize, columns: usize },
    /// A value does not have the type of the named column.
    TypeMismatch(String),
    /// A text cannot be read as a value of the expected type.
    InvalidFormat { expected: ColumnType, input: String },
    /// The primary column cannot hold `Empty`.
    PrimaryEmptyRejected,
    /// The primary column cannot hold a value twice.
    PrimaryDuplicateRejected,
    /// No row met the condition of an update.
    NoMatchingRow,
    /// The command is not one the table understands.
    UnknownCommand(String),
    /// The named command was given too few or too many arguments.
    WrongArguments(String),
    /// The word names no column type.
    UnknownColumnType(String),
    /// A table of the given name exists already.
    DuplicateTable(String),
    /// No table has the given name.
    TableNotFound(String),
}

/// The mathematical content of a [`TableError`].
pub enum ErrorView {
    ColumnNotFound(Seq<char>),
    DuplicateColumn(Seq<char>),
    PrimaryColumnProtected(Seq<char>),
    NoPrimarySet,
    TooManyValues { given: nat, columns: nat },
    TypeMismatch(Seq<char>),
    InvalidFormat { expected: ColumnType, input: Seq<char> },
    PrimaryEmptyRejected,
    PrimaryDuplicateRejected,
    NoMatchingRow,
    UnknownCommand(Seq<char>),
    WrongArguments(Seq<char>),
    UnknownColumnType(Seq<char>),
    DuplicateTable(Seq<char>),
    TableNotFound(Seq<char>),
}

impl View for TableError {
    type V = ErrorView;

    open spec fn view(&self) -> ErrorView {
        match *self {
            TableError::ColumnNotFound(name) => ErrorView::ColumnNotFound(name@),
            TableError::DuplicateColumn(name) => ErrorView::DuplicateColumn(name@),
            TableError::PrimaryColumnProtected(name) => ErrorView::PrimaryColumnProtected(name@),
            TableError::NoPrimarySet => ErrorView::NoPrimarySet,
            TableError::TooManyValues { given, columns } => ErrorView::TooManyValues {
                given: given as nat,
                columns: columns as nat,
            },
            TableError::TypeMismatch(name) => ErrorView::TypeMismatch(name@),
            TableError::InvalidFormat { expected, input } => ErrorView::InvalidFormat {
                expected,
                input: input@,
            },
            TableError::PrimaryEmptyRejected => ErrorView::PrimaryEmptyRejected,
            TableError::PrimaryDuplicateRejected => ErrorView::PrimaryDuplicateRejected,
            TableError::NoMatchingRow => ErrorView::NoMatchingRow,
            TableError::UnknownCommand(name) => ErrorView::UnknownCommand(name@),
            TableError::WrongArguments(name) => ErrorView::WrongArguments(name@),
            TableError::UnknownColumnType(word) => ErrorView::UnknownColumnType(word@),
            TableError::DuplicateTable(name) => ErrorView::DuplicateTable(name@),
            TableError::TableNotFound(name) => ErrorView::TableNotFound(name@),
        }
    }
}

/// A text between two fixed texts.
pub open spec fn framed(before: Seq<char>, middle: Seq<char>, after: Seq<char>) -> Seq<char> {
    before + middle + after
}

/// The message that tells a user of a failure.
pub open spec fn message_text(e: ErrorView) -> Seq<char> {
    match e {
        ErrorView::ColumnNotFound(name) => framed("kolom `"@, name, "` tidak ditemukan"@),
        ErrorView::DuplicateColumn(name) => framed("kolom `"@, name, "` sudah ada"@),
        ErrorView::PrimaryColumnProtected(name) => framed(
            "kolom `"@,
            name,
            "` adalah primary, tidak boleh dihapus"@,
        ),
        ErrorView::NoPrimarySet => "primary belum ditentukan"@,
        ErrorView::TooManyValues { given, columns } => framed(
            "nilai berlebih ("@,
            natural_text(given),
            "), kolom hanya ("@,
        ) + natural_text(columns) + ")"@,
        ErrorView::TypeMismatch(name) => framed("tipe tidak cocok pada kolom `"@, name, "`"@),
        ErrorView::InvalidFormat { expected, input } => match expected {
            ColumnType::Text => framed("Text tidak dapat dibaca: '"@, input, "'"@),
            ColumnType::Char => "Char harus 1 karakter"@,
            ColumnType::Numb => framed("Numb harus angka: '"@, input, "'"@),
            ColumnType::Bool => "Bool harus true/false atau 1/0"@,
        },
        ErrorView::PrimaryEmptyRejected => "primary tidak boleh Empty"@,
        ErrorView::PrimaryDuplicateRejected => "nilai primary duplikat"@,
        ErrorView::NoMatchingRow => "tidak ada baris yang cocok dengan kondisi"@,
        ErrorView::UnknownCommand(name) => framed("Perintah '"@, name, "' tidak dikenali"@),
        ErrorView::WrongArguments(name) => framed(
            "Perintah '"@,
            name,
            "' tidak sesuai jumlah argumennya"@,
        ),
        ErrorView::UnknownColumnType(_) => "Tipe kolom tidak valid!"@,
        ErrorView::DuplicateTable(name) => framed("Tabel `"@, name, "` sudah ada"@),
        ErrorView::TableNotFound(name) => framed("Tabel `"@, name, "` tidak ditemukan"@),
    }
}

/// Puts a text between two fixed texts.
fn frame(before: &str, middle: &str, after: &str) -> (s: String)
    ensures
        s@ == framed(before@, middle@, after@),
{
    let mut s = before.to_owned();
    s.append(middle);
    s.append(after);
    s
}

impl TableError {
    /// The message that tells a user of this failure.
    pub fn message(&self) -> (s: String)
        ensures
            s@ == message_text(self@),
    {
        match self {
            TableError::ColumnNotFound(name) => frame("kolom `", name.as_str(), "` tidak ditemukan"),
            TableError::DuplicateColumn(name) => frame("kolom `", name.as_str(), "` sudah ada"),
            TableError::PrimaryColumnProtected(name) => frame(
                "kolom `",
                name.as_str(),
                "` adalah primary, tidak boleh dihapus",
            ),
            TableError::NoPrimarySet => "primary belum ditentukan".to_owned(),
            TableError::TooManyValues { given, columns } => {
                let mut s = "nilai berlebih (".to_owned();
                push_natural(&mut s, *given as u64);
                s.append("), kolom hanya (");
                push_natural(&mut s, *columns as u64);
                s.append(")");
                s
            },
            TableError::TypeMismatch(name) => frame(
                "tipe tidak cocok pada kolom `",
                name.as_str(),
                "`",
            ),
            TableError::InvalidFormat { expected, input } => match expected {
                ColumnType::Text => frame("Text tidak dapat dibaca: '", input.as_str(), "'"),
                ColumnType::Char => "Char harus 1 karakter".to_owned(),
                ColumnType::Numb => frame("Numb harus angka: '", input.as_str(), "'"),
                ColumnType::Bool => "Bool harus true/false atau 1/0".to_owned(),
            },
            TableError::PrimaryEmptyRejected => "primary tidak boleh Empty".to_owned(),
            TableError::PrimaryDuplicateRejected => "nilai primary duplikat".to_owned(),
            TableError::NoMatchingRow => "tidak ada baris yang cocok dengan kondisi".to_owned(),
            TableError::UnknownCommand(name) => frame("Perintah '", name.as_str(), "' tidak dikenali"),
            TableError::WrongArguments(name) => frame(
                "Perintah '",
                name.as_str(),
                "' tidak sesuai jumlah argumennya",
            ),
            TableError::UnknownColumnType(_) => "Tipe kolom tidak valid!".to_owned(),
            TableError::DuplicateTable(name) => frame("Tabel `", name.as_str(), "` sudah ada"),
            TableError::TableNotFound(name) => frame("Tabel `", name.as_str(), "` tidak ditemukan"),
        }
    }
}

} // verus!
