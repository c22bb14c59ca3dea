//! A catalog of tables, each known by its name.

use vstd::prelude::*;
use crate::error::{ErrorView, TableError};
use crate::model::TableView;
use crate::table::DataTable;
use crate::text::same_text;

verus! {

/// A catalog of named tables. No name is meant to occur twice; the
/// operations keep it so.
pub struct DataBase {
    /// The tables with their names, in the order in which they were added.
    pub tables: Vec<(String, DataTable)>,
    /// A list of table names, kept for callers.
    pub lot: Vec<String>,
    /// A count of tables, kept for callers.
    pub table_count: Option<usize>,
    /// The name of the table that is selected, kept for callers.
    pub selected: Option<String>,
}

impl DataBase {
    /// The names of the tables, in their order.
    pub open spec fn names(&self) -> Seq<Seq<char>> {
        self.tables@.map_values(|e: (String, DataTable)| e.0@)
    }

    /// Some table has the given name.
    pub open spec fn holds(&self, name: Seq<char>) -> bool {
        exists|i: int| 0 <= i < self.names().len() && #[trigger] self.names()[i] == name
    }

    /// Entry `i` is the first table of the given name.
    pub open spec fn first_at(&self, name: Seq<char>, i: int) -> bool {
        &&& 0 <= i < self.names().len()
        &&& self.names()[i] == name
        &&& forall|j: int| 0 <= j < i ==> #[trigger] self.names()[j] != name
    }

    /// No two tables have the same name.
    pub open spec fn wf(&self) -> bool {
        forall|i: int, j: int|
            0 <= i < j < self.names().len() ==> #[trigger] self.names()[i] != #[trigger] self.names()[j]
    }

    /// Everything but the tables is as in `other`.
    pub open spec fn same_notes(&self, other: &DataBase) -> bool {
        &&& self.lot == other.lot
        &&& self.table_count == other.table_count
        &&& self.selected == other.selected
    }

    /// A catalog without tables.
    pub fn new() -> (db: Self)
        ensures
            db.tables@.len() == 0,
            db.lot@.len() == 0,
            db.table_count is None,
            db.selected is None,
            db.wf(),
    {
        DataBase { tables: Vec::new(), lot: Vec::new(), table_count: None, selected: None }
    }

    /// The place of the first table of the given name.
    fn find_table(&self, name: &str) -> (r: Option<usize>)
        ensures
            match r {
                Some(i) => self.first_at(name@, i as int),
                None => !self.holds(name@),
            },
    {
        let mut i: usize = 0;
        while i < self.tables.len()
            invariant
                i <= self.tables.len(),
                forall|j: int| 0 <= j < i ==> #[trigger] self.names()[j] != name@,
            decreases self.tables.len() - i,
        {
            if same_text(self.tables[i].0.as_str(), name) {
                proof {
                    assert(self.names()[i as int] == name@);
                }
                return Some(i);
            }
            i = i + 1;
        }
        None
    }

    /// Adds an empty table under a name that no table has yet.
    pub fn add_table(&mut self, name: &str) -> (r: Result<(), TableError>)
        ensures
            final(self).same_notes(old(self)),
            old(self).holds(name@) ==> (r matches Err(e) && e@ == ErrorView::DuplicateTable(name@)
                && *final(self) == *old(self)),
            !old(self).holds(name@) ==> r is Ok && final(self).tables@.len() == old(self).tables@.len() + 1 && final(self).tables@.drop_last() == old(self).tables@ && final(self).tables@.last().0@ == name@ && final(self).tables@.last().1@ == TableView::empty(),
            old(self).wf() ==> final(self).wf(),
    {
        match self.find_table(name) {
            Some(_) => Err(TableError::DuplicateTable(name.to_owned())),
            None => {
                self.tables.push((name.to_owned(), DataTable::new()));
                proof {
                    assert(self.tables@.drop_last() =~= old(self).tables@);
                    if old(self).wf() {
                        assert forall|i: int, j: int| 0 <= i < j < self.names().len() implies #[trigger] self.names()[i]
                            != #[trigger] self.names()[j] by {
                            assert(self.names()[i] == old(self).names()[i]);
                            if j < old(self).names().len() {
                                assert(self.names()[j] == old(self).names()[j]);
                            }
                        }
                    }
                }
                Ok(())
            },
        }
    }

    /// The table of the given name, to be read or changed.
    pub fn get_table(&mut self, name: &str) -> (r: Option<&mut DataTable>)
        ensures
            final(self).same_notes(old(self)),
            match r {
                Some(t) => exists|i: int|
                    old(self).first_at(name@, i) && *t == old(self).tables@[i].1 && final(self).tables@ == old(self).tables@.update(
                        i,
                        (old(self).tables@[i].0, *final(t)),
                    ),
                None => !old(self).holds(name@) && *final(self) == *old(self),
            },
    {
        match self.find_table(name) {
            Some(i) => Some(&mut self.tables[i].1),
            None => None,
        }
    }

    /// Removes the table of the given name.
    pub fn remove_table(&mut self, name: &str) -> (r: Result<(), TableError>)
        ensures
            final(self).same_notes(old(self)),
            old(self).holds(name@) ==> r is Ok && exists|i: int|
                old(self).first_at(name@, i) && final(self).tables@ == old(self).tables@.remove(i),
            !old(self).holds(name@) ==> (r matches Err(e) && e@ == ErrorView::TableNotFound(name@)
                && *final(self) == *old(self)),
            old(self).wf() ==> final(self).wf() && (r is Ok ==> !final(self).holds(name@)),
    {
        match self.find_table(name) {
            Some(i) => {
                self.tables.remove(i);
                proof {
                    assert(old(self).holds(name@));
                    if old(self).wf() {
                        assert forall|a: int| 0 <= a < self.names().len() implies #[trigger] self.names()[a]
                            == old(self).names()[if a < i { a } else { a + 1 }] by {}
                        assert forall|a: int, b: int| 0 <= a < b < self.names().len() implies #[trigger] self.names()[a]
                            != #[trigger] self.names()[b] by {
                            let oa = if a < i { a } else { a + 1 };
                            let ob = if b < i { b } else { b + 1 };
                            assert(old(self).names()[oa] != old(self).names()[ob]);
                        }
                        assert forall|a: int| 0 <= a < self.names().len() implies #[trigger] self.names()[a]
                            != name@ by {
                            let oa = if a < i { a } else { a + 1 };
                            if oa < i {
                                assert(old(self).names()[oa] != old(self).names()[i as int]);
                            } else {
                                assert(old(self).names()[i as int] != old(self).names()[oa]);
                            }
                        }
                    }
                }
                Ok(())
            },
            None => Err(TableError::TableNotFound(name.to_owned())),
        }
    }
}

} // verus!
