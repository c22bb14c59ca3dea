//! The one-shot commands: a command word and its arguments, applied to the
//! table.
//!
//! | command | arguments |
//! |---|---|
//! | `add_column` | the name of the column, then the word for its type |
//! | `add_row` | the values as texts, one for each column from the first on; columns left out get `Empty` |
//! | `set_primary` | the name of the column |
//! | `set_value_where` | the condition column, the condition as text, the target column, the new value as text |
//! | `print` | none that matter; showing the table is left to the caller |
//!
//! A text is read as a value of the type of the column it is meant for.

use vstd::prelude::*;
use crate::error::{ErrorView, TableError};
use crate::menu::{add_column_from_text, add_row_from_text, set_value_from_text};
use crate::model::TableView;
use crate::render::texts_view;
use crate::table::{outcome, DataTable};
use crate::text::same_text;

verus! {

/// What a command asks for.
#[derive(Debug, Clone, Copy, PartialEq, Eq, Structural)]
pub enum Command {
    AddColumn,
    AddRow,
    SetPrimary,
    SetValueWhere,
    Print,
}

/// The command that a word names, if it names one.
pub open spec fn command_of(word: Seq<char>) -> Option<Command> {
    if word == "add_column"@ {
        Some(Command::AddColumn)
    } else if word == "add_row"@ {
        Some(Command::AddRow)
    } else if word == "set_primary"@ {
        Some(Command::SetPrimary)
    } else if word == "set_value_where"@ {
        Some(Command::SetValueWhere)
    } else if word == "print"@ {
        Some(Command::Print)
    } else {
        None
    }
}

/// What a command with its arguments makes of a table. The first of `args`
/// is the command word. Each command does what the operation of its name
/// does, on the arguments that follow the word; `print` changes nothing. A
/// command with the wrong number of arguments, or a word that names no
/// command, is an error.
pub open spec fn command_outcome(t: TableView, args: Seq<Seq<char>>) -> Result<
    TableView,
    ErrorView,
> {
    match command_of(args[0]) {
        None => Err(ErrorView::UnknownCommand(args[0])),
        Some(Command::AddColumn) => if args.len() == 3 {
            add_column_from_text(t, args[1], args[2])
        } else {
            Err(ErrorView::WrongArguments(args[0]))
        },
        Some(Command::AddRow) => add_row_from_text(t, args.subrange(1, args.len() as int)),
        Some(Command::SetPrimary) => if args.len() == 2 {
            t.set_primary(args[1])
        } else {
            Err(ErrorView::WrongArguments(args[0]))
        },
        Some(Command::SetValueWhere) => if args.len() == 5 {
            set_value_from_text(t, args[1], args[2], args[3], args[4])
        } else {
            Err(ErrorView::WrongArguments(args[0]))
        },
        Some(Command::Print) => Ok(t),
    }
}

/// Whether a command looks into the rows that are there: choosing the primary
/// column and updating values do.
pub open spec fn reads_rows(command: Option<Command>) -> bool {
    command == Some(Command::SetPrimary) || command == Some(Command::SetValueWhere)
}

/// Reads a command word.
pub fn command_named(word: &str) -> (r: Option<Command>)
    ensures
        r == command_of(word@),
{
    if same_text(word, "add_column") {
        Some(Command::AddColumn)
    } else if same_text(word, "add_row") {
        Some(Command::AddRow)
    } else if same_text(word, "set_primary") {
        Some(Command::SetPrimary)
    } else if same_text(word, "set_value_where") {
        Some(Command::SetValueWhere)
    } else if same_text(word, "print") {
        Some(Command::Print)
    } else {
        None
    }
}

/// Runs the command that `args` holds, the command word first. On `print`
/// the table is left as it is: the caller shows it.
pub fn run_command(table: &mut DataTable, args: Vec<String>) -> (r: Result<(), TableError>)
    requires
        args.len() > 0,
        reads_rows(command_of(args[0]@)) ==> old(table)@.rows_aligned(),
    ensures
        outcome(old(table)@, final(table)@, r, command_outcome(old(table)@, texts_view(args@))),
        r is Err ==> *final(table) == *old(table),
        old(table)@.well_shaped() ==> final(table)@.well_shaped(),
        old(table)@.wf() ==> final(table)@.wf(),
{
    let ghost words = texts_view(args@);
    proof {
        assert(words[0] == args@[0]@);
    }
    let word = args[0].as_str();
    match command_named(word) {
        None => Err(TableError::UnknownCommand(word.to_owned())),
        Some(Command::Print) => Ok(()),
        Some(Command::AddColumn) => {
            if args.len() == 3 {
                proof {
                    assert(words[1] == args@[1]@);
                    assert(words[2] == args@[2]@);
                }
                table.add_column_from_text(args[1].as_str(), args[2].as_str())
            } else {
                Err(TableError::WrongArguments(word.to_owned()))
            }
        },
        Some(Command::SetPrimary) => {
            if args.len() == 2 {
                proof {
                    assert(words[1] == args@[1]@);
                }
                table.set_primary(args[1].as_str())
            } else {
                Err(TableError::WrongArguments(word.to_owned()))
            }
        },
        Some(Command::SetValueWhere) => {
            if args.len() == 5 {
                proof {
                    assert(words[1] == args@[1]@);
                    assert(words[2] == args@[2]@);
                    assert(words[3] == args@[3]@);
                    assert(words[4] == args@[4]@);
                }
                table.set_value_from_text(
                    args[1].as_str(),
                    args[2].as_str(),
                    args[3].as_str(),
                    args[4].as_str(),
                )
            } else {
                Err(TableError::WrongArguments(word.to_owned()))
            }
        },
        Some(Command::AddRow) => {
            let mut texts: Vec<String> = Vec::new();
            let mut i: usize = 1;
            while i < args.len()
                invariant
                    1 <= i <= args.len(),
                    texts@ == args@.subrange(1, i as int),
                decreases args.len() - i,
            {
                texts.push(args[i].clone());
                proof {
                    assert(texts@ =~= args@.subrange(1, i + 1));
                }
                i = i + 1;
            }
            proof {
                assert(texts_view(texts@) =~= words.subrange(1, words.len() as int));
            }
            table.add_row_from_text(&texts)
        },
    }
}

} // verus!
