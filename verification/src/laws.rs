//! What holds of the operations in general: which consistency each keeps,
//! and how their results relate to the table they started from.

use vstd::prelude::*;
use crate::error::ErrorView;
use crate::model::{lemma_rows_without_push, pad_row, row_holds, rows_without, Batch, TableView};
use crate::value::ValueView;

verus! {

/// What a sequence of `add_column` calls makes of a table: the batches are
/// added one after the other, and the first refusal ends the sequence.
pub open spec fn add_batches(t: TableView, batches: Seq<Batch>) -> Result<TableView, ErrorView>
    decreases batches.len(),
{
    if batches.len() == 0 {
        Ok(t)
    } else {
        match t.add_column(batches.first()) {
            Ok(next) => add_batches(next, batches.drop_first()),
            Err(e) => Err(e),
        }
    }
}

/// The names of a batch are new to the table and differ from one another.
pub open spec fn names_fresh(t: TableView, batch: Batch) -> bool {
    &&& forall|j: int| 0 <= j < batch.len() ==> !t.has_column((#[trigger] batch[j]).0)
    &&& forall|j: int, k: int|
        0 <= k < j < batch.len() ==> (#[trigger] batch[k]).0 != (#[trigger] batch[j]).0
}

/// Where column `i` stands once column `c` is gone.
pub open spec fn shifted(i: int, c: int) -> int {
    if i > c {
        i - 1
    } else {
        i
    }
}

/// If some entry of a batch repeats a name, some entry is the first to.
proof fn lemma_first_repeat_exists(t: TableView, batch: Batch, j: int)
    requires
        0 <= j < batch.len(),
        t.repeats_name(batch, j),
    ensures
        exists|k: int| t.first_repeat(batch, k),
    decreases j,
{
    if exists|k: int| 0 <= k < j && #[trigger] t.repeats_name(batch, k) {
        let k = choose|k: int| 0 <= k < j && #[trigger] t.repeats_name(batch, k);
        lemma_first_repeat_exists(t, batch, k);
    } else {
        assert(t.first_repeat(batch, j));
    }
}

/// If some value of a row is mistyped, some value is the first to be.
proof fn lemma_first_mistyped_exists(t: TableView, row: Seq<ValueView>, i: int)
    requires
        0 <= i < row.len(),
        i < t.columns.len(),
        !row[i].fits(t.columns[i].coltype),
    ensures
        exists|k: int| t.first_mistyped(row, k),
    decreases i,
{
    if exists|k: int| 0 <= k < i && !(#[trigger] row[k]).fits(t.columns[k].coltype) {
        let k = choose|k: int| 0 <= k < i && !(#[trigger] row[k]).fits(t.columns[k].coltype);
        lemma_first_mistyped_exists(t, row, k);
    } else {
        assert(t.first_mistyped(row, i));
    }
}

/// `add_column` succeeds exactly when the names of the batch are new to the
/// table and differ from one another.
pub proof fn law_add_column_succeeds_iff_fresh(t: TableView, batch: Batch)
    ensures
        t.add_column(batch) is Ok <==> names_fresh(t, batch),
        names_fresh(t, batch) ==> t.add_column(batch) == Ok::<TableView, ErrorView>(
            t.with_columns(batch),
        ),
{
    if names_fresh(t, batch) {
        assert forall|j: int| !t.first_repeat(batch, j) by {
            if 0 <= j < batch.len() && t.repeats_name(batch, j) {
                assert(!t.has_column(batch[j].0));
                let k = choose|k: int| 0 <= k < j && (#[trigger] batch[k]).0 == batch[j].0;
                assert(batch[k].0 != batch[j].0);
            }
        }
    } else {
        if exists|j: int| 0 <= j < batch.len() && t.has_column((#[trigger] batch[j]).0) {
            let j = choose|j: int| 0 <= j < batch.len() && t.has_column((#[trigger] batch[j]).0);
            assert(t.repeats_name(batch, j));
            lemma_first_repeat_exists(t, batch, j);
        } else {
            let (j, k) = choose|j: int, k: int|
                0 <= k < j < batch.len() && (#[trigger] batch[k]).0 == (#[trigger] batch[j]).0;
            assert(t.repeats_name(batch, j));
            lemma_first_repeat_exists(t, batch, j);
        }
    }
}

/// A batch that names a column which the table has already is refused with
/// `DuplicateColumn`.
pub proof fn law_add_column_refuses_present_name(t: TableView, batch: Batch, j: int)
    requires
        0 <= j < batch.len(),
        t.has_column(batch[j].0),
    ensures
        t.add_column(batch) matches Err(ErrorView::DuplicateColumn(_)),
{
    assert(t.repeats_name(batch, j));
    lemma_first_repeat_exists(t, batch, j);
}

/// Adding columns keeps a table consistent in its shape, and keeps its
/// primary column a key; the columns that were there stay as they were, in
/// their places, and every row keeps its values and gains `Empty` for each
/// new column.
pub proof fn law_add_column_keeps_consistency(t: TableView, batch: Batch)
    requires
        t.well_shaped(),
        t.add_column(batch) is Ok,
    ensures
        t.add_column(batch)->Ok_0.well_shaped(),
        t.primary_unique() ==> t.add_column(batch)->Ok_0.primary_unique(),
        t.add_column(batch)->Ok_0.columns.len() == t.columns.len() + batch.len(),
        t.add_column(batch)->Ok_0.columns.subrange(0, t.columns.len() as int) == t.columns,
        t.add_column(batch)->Ok_0.rows.len() == t.rows.len(),
        forall|r: int, c: int|
            0 <= r < t.rows.len() && 0 <= c < t.columns.len() + batch.len() ==> (
            #[trigger] t.add_column(batch)->Ok_0.rows[r][c]) == if c < t.columns.len() {
                t.rows[r][c]
            } else {
                ValueView::Empty
            },
{
    law_add_column_succeeds_iff_fresh(t, batch);
    let n = t.with_columns(batch);
    assert(n.columns.subrange(0, t.columns.len() as int) =~= t.columns);
    assert forall|r: int| 0 <= r < n.rows.len() implies (#[trigger] n.rows[r]).len()
        == n.columns.len() by {
        assert(t.rows[r].len() == t.columns.len());
    }
    assert forall|r: int, c: int|
        0 <= r < n.rows.len() && 0 <= c < n.rows[r].len() && c < n.columns.len() implies (
    #[trigger] n.rows[r][c]).fits(n.columns[c].coltype) by {
        assert(t.rows[r].len() == t.columns.len());
        if c < t.columns.len() {
            assert(t.rows[r][c].fits(t.columns[c].coltype));
        }
    }
    assert forall|i: int, j: int| 0 <= i < j < n.columns.len() implies (#[trigger] n.columns[i]).name
        != (#[trigger] n.columns[j]).name by {
        let base = t.columns.len() as int;
        if j < base {
            assert(t.columns[i].name != t.columns[j].name);
        } else if i < base {
            assert(!t.has_column(batch[j - base].0));
            assert(t.columns[i].name != batch[j - base].0);
        } else {
            assert(batch[i - base].0 != batch[j - base].0);
        }
    }
    match t.primary_index {
        Some(p) => {
            assert forall|c: int| 0 <= c < n.columns.len() implies ((#[trigger] n.columns[c]).is_primary
                <==> c == p) by {
                if c < t.columns.len() {
                    assert(t.columns[c].is_primary <==> c == p);
                }
            }
            assert forall|r: int| 0 <= r < n.rows.len() implies (#[trigger] n.rows[r])[p]
                == t.rows[r][p] by {
                assert(t.rows[r].len() == t.columns.len());
            }
            if t.primary_unique() {
                assert(n.is_key(p)) by {
                    assert forall|r: int| 0 <= r < n.rows.len() implies (#[trigger] n.rows[r])[p]
                        != ValueView::Empty by {
                        assert(t.rows[r][p] != ValueView::Empty);
                    }
                    assert forall|r: int, q: int| 0 <= r < q < n.rows.len() implies (
                    #[trigger] n.rows[r])[p] != (#[trigger] n.rows[q])[p] by {
                        assert(t.rows[r][p] != t.rows[q][p]);
                    }
                }
            }
        },
        None => {
            assert forall|c: int| 0 <= c < n.columns.len() implies !(
            #[trigger] n.columns[c]).is_primary by {
                if c < t.columns.len() {
                    assert(!t.columns[c].is_primary);
                }
            }
        },
    }
    assert forall|r: int, c: int|
        0 <= r < t.rows.len() && 0 <= c < t.columns.len() + batch.len() implies (
    #[trigger] n.rows[r][c]) == if c < t.columns.len() {
        t.rows[r][c]
    } else {
        ValueView::Empty
    } by {
        assert(t.rows[r].len() == t.columns.len());
    }
}

/// Two batches added one after the other make the table that their
/// concatenation makes when added at once.
proof fn lemma_with_columns_twice(t: TableView, first: Batch, second: Batch)
    ensures
        t.with_columns(first).with_columns(second) == t.with_columns(first + second),
{
    let a = t.with_columns(first).with_columns(second);
    let b = t.with_columns(first + second);
    assert(a.columns =~= b.columns);
    assert forall|r: int| 0 <= r < a.rows.len() implies #[trigger] a.rows[r] == b.rows[r] by {
        let row = t.rows[r];
        let n1 = (t.columns.len() + first.len()) as int;
        let n2 = (t.columns.len() + first.len() + second.len()) as int;
        assert(t.with_columns(first).rows[r] == pad_row(row, n1));
        assert(a.rows[r] == pad_row(pad_row(row, n1), n2));
        assert(b.rows[r] == pad_row(row, n2));
        assert(pad_row(pad_row(row, n1), n2) =~= pad_row(row, n2));
    }
    assert(a.rows =~= b.rows);
}

/// On a table whose rows are aligned, any number of `add_column` calls whose
/// names are all new and all different succeed, and together they do what
/// one call with all the names does: the
/// columns grow by exactly the number of names, and every row is padded with
/// `Empty` to the new number of columns.
pub proof fn law_add_batches_of_fresh_names(t: TableView, batches: Seq<Batch>)
    requires
        t.rows_aligned(),
        names_fresh(t, batches.flatten()),
    ensures
        add_batches(t, batches) == Ok::<TableView, ErrorView>(t.with_columns(batches.flatten())),
        t.with_columns(batches.flatten()).columns.len() == t.columns.len()
            + batches.flatten().len(),
        t.with_columns(batches.flatten()).rows.len() == t.rows.len(),
        forall|r: int|
            0 <= r < t.rows.len() ==> #[trigger] t.with_columns(batches.flatten()).rows[r]
                == pad_row(t.rows[r], (t.columns.len() + batches.flatten().len()) as int),
    decreases batches.len(),
{
    let all = batches.flatten();
    if batches.len() == 0 {
        assert(all =~= Seq::empty());
        let n = t.with_columns(all);
        assert(n.columns =~= t.columns);
        assert(n.rows =~= t.rows) by {
            assert forall|r: int| 0 <= r < t.rows.len() implies #[trigger] n.rows[r]
                == t.rows[r] by {
                assert(t.rows[r].len() == t.columns.len());
                assert(pad_row(t.rows[r], t.columns.len() as int) =~= t.rows[r]);
            }
        }
    } else {
        let head = batches.first();
        let rest = batches.drop_first();
        let tail = rest.flatten();
        assert(all =~= head + tail);
        assert(names_fresh(t, head)) by {
            assert forall|j: int| 0 <= j < head.len() implies !t.has_column((#[trigger] head[j]).0) by {
                assert(all[j] == head[j]);
            }
            assert forall|j: int, k: int| 0 <= k < j < head.len() implies (#[trigger] head[k]).0 != (
            #[trigger] head[j]).0 by {
                assert(all[j] == head[j]);
                assert(all[k] == head[k]);
            }
        }
        law_add_column_succeeds_iff_fresh(t, head);
        let next = t.with_columns(head);
        assert(names_fresh(next, tail)) by {
            assert forall|j: int| 0 <= j < tail.len() implies !next.has_column(
                (#[trigger] tail[j]).0,
            ) by {
                assert(all[head.len() + j] == tail[j]);
                if next.has_column(tail[j].0) {
                    let i = choose|i: int|
                        0 <= i < next.columns.len() && (#[trigger] next.columns[i]).name
                            == tail[j].0;
                    if i < t.columns.len() {
                        assert(t.columns[i].name == tail[j].0);
                        assert(t.has_column(all[head.len() + j].0));
                    } else {
                        assert(all[i - t.columns.len()] == head[i - t.columns.len()]);
                        assert(all[i - t.columns.len()].0 == all[head.len() + j].0);
                    }
                }
            }
            assert forall|j: int, k: int| 0 <= k < j < tail.len() implies (#[trigger] tail[k]).0 != (
            #[trigger] tail[j]).0 by {
                assert(all[head.len() + j] == tail[j]);
                assert(all[head.len() + k] == tail[k]);
            }
        }
        assert forall|r: int| 0 <= r < next.rows.len() implies (#[trigger] next.rows[r]).len()
            == next.columns.len() by {
            assert(t.rows[r].len() == t.columns.len());
        }
        law_add_batches_of_fresh_names(next, rest);
        lemma_with_columns_twice(t, head, tail);
    }
}

/// The primary column cannot be removed.
pub proof fn law_remove_column_protects_primary(t: TableView, name: Seq<char>)
    requires
        t.position(name) is Some,
        t.primary_index == t.position(name),
    ensures
        t.remove_column(name) == Err::<TableView, ErrorView>(
            ErrorView::PrimaryColumnProtected(name),
        ),
{
}

/// Removing a column that is not primary keeps a table consistent in its
/// shape, and keeps its primary column a key. Every other column stays as it
/// was and every row keeps the
/// value it had for it, at the column's new place; the primary position
/// moves down by one exactly when the removed column stood before it, and so
/// goes on pointing at the same column.
pub proof fn law_remove_column_keeps_the_rest(t: TableView, name: Seq<char>)
    requires
        t.well_shaped(),
        t.remove_column(name) is Ok,
    ensures
        t.position(name) is Some,
        t.remove_column(name)->Ok_0.well_shaped(),
        t.primary_unique() ==> t.remove_column(name)->Ok_0.primary_unique(),
        t.remove_column(name)->Ok_0.columns.len() == t.columns.len() - 1,
        t.remove_column(name)->Ok_0.rows.len() == t.rows.len(),
        forall|i: int|
            0 <= i < t.columns.len() && i != t.position(name)->0 ==> t.remove_column(
                name,
            )->Ok_0.columns[shifted(i, t.position(name)->0)] == #[trigger] t.columns[i],
        forall|r: int, i: int|
            0 <= r < t.rows.len() && 0 <= i < t.columns.len() && i != t.position(name)->0
                ==> t.remove_column(name)->Ok_0.rows[r][shifted(i, t.position(name)->0)]
                == #[trigger] t.rows[r][i],
        match t.primary_index {
            Some(p) => t.remove_column(name)->Ok_0.primary_index == Some(
                shifted(p, t.position(name)->0),
            ) && (t.remove_column(name)->Ok_0.primary_index == Some(p - 1) <==> t.position(
                name,
            )->0 < p),
            None => t.remove_column(name)->Ok_0.primary_index is None,
        },
{
    t.lemma_position_is_first(name);
    let c = t.position(name)->0;
    let n = t.without_column(c);
    assert forall|r: int| 0 <= r < n.rows.len() implies (#[trigger] n.rows[r]).len()
        == n.columns.len() by {
        assert(t.rows[r].len() == t.columns.len());
    }
    assert forall|r: int, i: int|
        0 <= r < t.rows.len() && 0 <= i < t.columns.len() && i != c implies n.rows[r][shifted(i, c)]
        == #[trigger] t.rows[r][i] by {
        assert(t.rows[r].len() == t.columns.len());
    }
    assert forall|r: int, i: int|
        0 <= r < n.rows.len() && 0 <= i < n.rows[r].len() && i < n.columns.len() implies (
    #[trigger] n.rows[r][i]).fits(n.columns[i].coltype) by {
        assert(t.rows[r].len() == t.columns.len());
        let o = if i < c {
            i
        } else {
            i + 1
        };
        assert(t.rows[r][o].fits(t.columns[o].coltype));
    }
    assert forall|i: int, j: int| 0 <= i < j < n.columns.len() implies (#[trigger] n.columns[i]).name
        != (#[trigger] n.columns[j]).name by {
        let oi = if i < c {
            i
        } else {
            i + 1
        };
        let oj = if j < c {
            j
        } else {
            j + 1
        };
        assert(t.columns[oi].name != t.columns[oj].name);
    }
    match t.primary_index {
        Some(p) => {
            let np = shifted(p, c);
            assert forall|i: int| 0 <= i < n.columns.len() implies ((#[trigger] n.columns[i]).is_primary
                <==> i == np) by {
                let o = if i < c {
                    i
                } else {
                    i + 1
                };
                assert(t.columns[o].is_primary <==> o == p);
            }
            assert forall|r: int| 0 <= r < n.rows.len() implies (#[trigger] n.rows[r])[np]
                == t.rows[r][p] by {
                assert(t.rows[r].len() == t.columns.len());
            }
            if t.primary_unique() {
                assert(n.is_key(np)) by {
                    assert forall|r: int| 0 <= r < n.rows.len() implies (
                    #[trigger] n.rows[r])[np] != ValueView::Empty by {
                        assert(t.rows[r][p] != ValueView::Empty);
                    }
                    assert forall|r: int, q: int| 0 <= r < q < n.rows.len() implies (
                    #[trigger] n.rows[r])[np] != (#[trigger] n.rows[q])[np] by {
                        assert(t.rows[r][p] != t.rows[q][p]);
                    }
                }
            }
        },
        None => {
            assert forall|i: int| 0 <= i < n.columns.len() implies !(
            #[trigger] n.columns[i]).is_primary by {
                let o = if i < c {
                    i
                } else {
                    i + 1
                };
                assert(!t.columns[o].is_primary);
            }
        },
    }
}

/// Once the table has rows, a column that holds `Empty` or holds a value
/// twice cannot become the primary column.
pub proof fn law_set_primary_refuses_bad_candidate(t: TableView, name: Seq<char>)
    requires
        t.position(name) is Some,
        t.primary_index != t.position(name),
        t.column_holds(t.position(name)->0, ValueView::Empty) || t.column_repeats(
            t.position(name)->0,
        ),
    ensures
        t.set_primary(name) is Err,
        t.column_holds(t.position(name)->0, ValueView::Empty) ==> t.set_primary(name) == Err::<
            TableView,
            ErrorView,
        >(ErrorView::PrimaryEmptyRejected),
        !t.column_holds(t.position(name)->0, ValueView::Empty) ==> t.set_primary(name) == Err::<
            TableView,
            ErrorView,
        >(ErrorView::PrimaryDuplicateRejected),
{
    let c = t.position(name)->0;
    if t.column_holds(c, ValueView::Empty) {
        let r = choose|r: int| 0 <= r < t.rows.len() && (#[trigger] t.rows[r])[c] == ValueView::Empty;
    } else {
        let (r, q) = choose|r: int, q: int|
            0 <= r < q < t.rows.len() && (#[trigger] t.rows[r])[c] == (#[trigger] t.rows[q])[c];
    }
}

/// Choosing a primary column keeps a table consistent in its shape and
/// makes the chosen column the primary one. A column that was not primary
/// before is a key afterwards; the table is then consistent in every respect.
pub proof fn law_set_primary_keeps_consistency(t: TableView, name: Seq<char>)
    requires
        t.well_shaped(),
        t.set_primary(name) is Ok,
    ensures
        t.set_primary(name)->Ok_0.well_shaped(),
        t.primary_unique() || t.primary_index != t.position(name) ==> t.set_primary(
            name,
        )->Ok_0.wf(),
        t.set_primary(name)->Ok_0.primary_index == t.position(name),
        t.set_primary(name)->Ok_0.rows == t.rows,
{
    t.lemma_position_is_first(name);
    let c = t.position(name)->0;
    if t.primary_index != Some(c) {
        let n = t.with_primary(c);
        assert forall|r: int| 0 <= r < n.rows.len() implies (#[trigger] n.rows[r]).len()
            == n.columns.len() by {
            assert(t.rows[r].len() == t.columns.len());
        }
        assert forall|r: int, i: int|
            0 <= r < n.rows.len() && 0 <= i < n.rows[r].len() && i < n.columns.len() implies (
        #[trigger] n.rows[r][i]).fits(n.columns[i].coltype) by {
            assert(t.rows[r][i].fits(t.columns[i].coltype));
        }
        assert forall|i: int, j: int| 0 <= i < j < n.columns.len() implies (
        #[trigger] n.columns[i]).name != (#[trigger] n.columns[j]).name by {
            assert(t.columns[i].name != t.columns[j].name);
        }
        assert(n.is_key(c)) by {
            if t.rows.len() > 0 {
                assert(t.candidate_error(c) is None);
                assert forall|r: int| 0 <= r < n.rows.len() implies (#[trigger] n.rows[r])[c]
                    != ValueView::Empty by {
                    if t.rows[r][c] == ValueView::Empty {
                        assert(t.column_holds(c, ValueView::Empty));
                    }
                }
                assert forall|r: int, q: int| 0 <= r < q < n.rows.len() implies (
                #[trigger] n.rows[r])[c] != (#[trigger] n.rows[q])[c] by {
                    if t.rows[r][c] == t.rows[q][c] {
                        assert(t.column_repeats(c));
                    }
                }
            }
        }
    }
}

/// Without a primary column no row can be added, whatever columns exist.
pub proof fn law_add_row_needs_primary(t: TableView, values: Seq<ValueView>)
    requires
        t.primary_index is None,
    ensures
        t.add_row(values) == Err::<TableView, ErrorView>(ErrorView::NoPrimarySet),
{
}

/// Only `set_primary` gives a table a primary column: the empty table has
/// none, and no other operation gives one to a table that has none.
pub proof fn law_primary_comes_from_set_primary(
    t: TableView,
    batch: Batch,
    values: Seq<ValueView>,
    name: Seq<char>,
    v: ValueView,
    other: Seq<char>,
    w: ValueView,
)
    requires
        t.primary_index is None,
    ensures
        TableView::empty().primary_index is None,
        t.add_column(batch) matches Ok(n) ==> n.primary_index is None,
        t.add_row(values) is Err,
        t.remove_column(name) matches Ok(n) ==> n.primary_index is None,
        t.remove_row(name, v) matches Ok(n) ==> n.primary_index is None,
        t.set_value_where(name, v, other, w) matches Ok(n) ==> n.primary_index is None,
{
}

/// A row with more values than the table has columns is refused; a row with
/// no more values than columns is accepted exactly when each value given is
/// `Empty` or of the type of its column and the value for the primary column
/// is other than `Empty` and new to that column. It is then stored with
/// `Empty` in the places that were not given.
pub proof fn law_add_row_pads_and_checks(t: TableView, values: Seq<ValueView>)
    requires
        t.primary_index is Some,
    ensures
        values.len() > t.columns.len() ==> t.add_row(values) == Err::<TableView, ErrorView>(
            ErrorView::TooManyValues { given: values.len(), columns: t.columns.len() },
        ),
        values.len() <= t.columns.len() ==> (t.add_row(values) is Ok <==> (forall|i: int|
            0 <= i < values.len() ==> (#[trigger] values[i]).fits(t.columns[i].coltype))
            && t.key_error(pad_row(values, t.columns.len() as int), t.primary_index->0) is None),
        t.add_row(values) matches Ok(n) ==> n.rows == t.rows.push(
            pad_row(values, t.columns.len() as int),
        ) && n.columns == t.columns && n.primary_index == t.primary_index,
        t.add_row(values) matches Err(e) ==> e is TooManyValues || e is TypeMismatch
            || e is PrimaryEmptyRejected || e is PrimaryDuplicateRejected,
{
    if values.len() <= t.columns.len() {
        let row = pad_row(values, t.columns.len() as int);
        if forall|i: int| 0 <= i < values.len() ==> (#[trigger] values[i]).fits(t.columns[i].coltype) {
            assert forall|k: int| !t.first_mistyped(row, k) by {
                if 0 <= k < row.len() {
                    if k < values.len() {
                        assert(row[k] == values[k]);
                        assert(values[k].fits(t.columns[k].coltype));
                    } else {
                        assert(row[k] == ValueView::Empty);
                    }
                }
            }
        } else {
            let i = choose|i: int|
                0 <= i < values.len() && !(#[trigger] values[i]).fits(t.columns[i].coltype);
            assert(row[i] == values[i]);
            lemma_first_mistyped_exists(t, row, i);
        }
    }
}

/// A row whose value for the primary column is `Empty`, or is held there by
/// a row already, is refused though its values have the types of their
/// columns.
pub proof fn law_add_row_guards_primary(t: TableView, values: Seq<ValueView>, r: int)
    requires
        t.well_shaped(),
        t.primary_index is Some,
        values.len() <= t.columns.len(),
        forall|i: int| 0 <= i < values.len() ==> (#[trigger] values[i]).fits(t.columns[i].coltype),
        0 <= r < t.rows.len(),
    ensures
        pad_row(values, t.columns.len() as int)[t.primary_index->0] == ValueView::Empty
            ==> t.add_row(values) == Err::<TableView, ErrorView>(ErrorView::PrimaryEmptyRejected),
        pad_row(values, t.columns.len() as int)[t.primary_index->0] != ValueView::Empty
            && t.rows[r][t.primary_index->0] == pad_row(
            values,
            t.columns.len() as int,
        )[t.primary_index->0] ==> t.add_row(values) == Err::<TableView, ErrorView>(
            ErrorView::PrimaryDuplicateRejected,
        ),
{
    law_add_row_pads_and_checks(t, values);
    let row = pad_row(values, t.columns.len() as int);
    let p = t.primary_index->0;
    assert(t.rows[r].len() == t.columns.len());
    if row[p] != ValueView::Empty && t.rows[r][p] == row[p] {
        assert(row_holds(t.rows[r], p, row[p]));
    }
}

/// Adding a row keeps a table consistent in its shape, and keeps its primary
/// column a key.
pub proof fn law_add_row_keeps_consistency(t: TableView, values: Seq<ValueView>)
    requires
        t.well_shaped(),
        t.add_row(values) is Ok,
    ensures
        t.add_row(values)->Ok_0.well_shaped(),
        t.primary_unique() ==> t.add_row(values)->Ok_0.primary_unique(),
{
    law_add_row_pads_and_checks(t, values);
    let row = pad_row(values, t.columns.len() as int);
    let n = t.add_row(values)->Ok_0;
    let p = t.primary_index->0;
    let last = t.rows.len() as int;
    assert(n.rows[last] == row);
    assert forall|r: int| 0 <= r < n.rows.len() implies (#[trigger] n.rows[r]).len()
        == n.columns.len() by {
        if r < last {
            assert(t.rows[r].len() == t.columns.len());
        }
    }
    assert forall|r: int, c: int|
        0 <= r < n.rows.len() && 0 <= c < n.rows[r].len() && c < n.columns.len() implies (
    #[trigger] n.rows[r][c]).fits(n.columns[c].coltype) by {
        if r < last {
            assert(t.rows[r][c].fits(t.columns[c].coltype));
        } else {
            if !row[c].fits(t.columns[c].coltype) {
                lemma_first_mistyped_exists(t, row, c);
            }
        }
    }
    if t.primary_unique() {
        assert(t.key_error(row, p) is None);
        assert(0 <= p < row.len());
        assert forall|r: int| 0 <= r < n.rows.len() implies (#[trigger] n.rows[r])[p]
            != ValueView::Empty by {
            if r < last {
                assert(t.rows[r][p] != ValueView::Empty);
            }
        }
        assert forall|r: int, q: int| 0 <= r < q < n.rows.len() implies (#[trigger] n.rows[r])[p]
            != (#[trigger] n.rows[q])[p] by {
            if q < last {
                assert(t.rows[r][p] != t.rows[q][p]);
            } else {
                assert(t.rows[r].len() == t.columns.len());
                assert(t.rows[r][p] == n.rows[r][p]);
                assert(!row_holds(t.rows[r], p, row[p]));
            }
        }
    }
}

/// A successful update gives the new value to every row that met the
/// condition, not only to the first, and changes nothing else.
pub proof fn law_set_value_where_changes_every_match(
    t: TableView,
    cond_col: Seq<char>,
    cond: ValueView,
    target_col: Seq<char>,
    new: ValueView,
)
    requires
        t.rows_aligned(),
        t.set_value_where(cond_col, cond, target_col, new) is Ok,
    ensures
        t.position(cond_col) is Some,
        t.position(target_col) is Some,
        t.set_value_where(cond_col, cond, target_col, new)->Ok_0.columns == t.columns,
        t.set_value_where(cond_col, cond, target_col, new)->Ok_0.primary_index == t.primary_index,
        t.set_value_where(cond_col, cond, target_col, new)->Ok_0.rows.len() == t.rows.len(),
        t.column_holds(t.position(cond_col)->0, cond),
        forall|r: int, c: int|
            0 <= r < t.rows.len() && 0 <= c < t.columns.len() ==> (#[trigger] t.set_value_where(
                cond_col,
                cond,
                target_col,
                new,
            )->Ok_0.rows[r][c]) == if t.rows[r][t.position(cond_col)->0] == cond && c == t.position(
                target_col,
            )->0 {
                new
            } else {
                t.rows[r][c]
            },
{
    t.lemma_position_is_first(cond_col);
    t.lemma_position_is_first(target_col);
    let n = t.set_value_where(cond_col, cond, target_col, new)->Ok_0;
    assert forall|r: int, c: int| 0 <= r < t.rows.len() && 0 <= c < t.columns.len() implies (
    #[trigger] n.rows[r][c]) == if t.rows[r][t.position(cond_col)->0] == cond && c == t.position(
        target_col,
    )->0 {
        new
    } else {
        t.rows[r][c]
    } by {
        assert(t.rows[r].len() == t.columns.len());
    }
}

/// An update whose condition no row meets fails with `NoMatchingRow`, if
/// nothing else is wrong with it.
pub proof fn law_set_value_where_needs_a_match(
    t: TableView,
    cond_col: Seq<char>,
    cond: ValueView,
    target_col: Seq<char>,
    new: ValueView,
)
    requires
        t.position(cond_col) is Some,
        t.position(target_col) is Some,
        new.fits(t.columns[t.position(target_col)->0].coltype),
        t.primary_index == t.position(target_col) ==> new != ValueView::Empty && !t.column_holds(
            t.position(target_col)->0,
            new,
        ),
        !t.column_holds(t.position(cond_col)->0, cond),
    ensures
        t.set_value_where(cond_col, cond, target_col, new) == Err::<TableView, ErrorView>(
            ErrorView::NoMatchingRow,
        ),
{
    let ci = t.position(cond_col)->0;
    if t.column_holds_twice(ci, cond) {
        let (r, q) = choose|r: int, q: int|
            0 <= r < q < t.rows.len() && (#[trigger] t.rows[r])[ci] == cond && (
            #[trigger] t.rows[q])[ci] == cond;
        assert(t.rows[r][ci] == cond);
    }
}

/// A new value for the primary column is refused if it is `Empty`, if some
/// row holds it there already, or if more than one row meets the condition,
/// though both columns exist and the value has the column's type.
pub proof fn law_set_value_where_guards_primary(
    t: TableView,
    cond_col: Seq<char>,
    cond: ValueView,
    target_col: Seq<char>,
    new: ValueView,
)
    requires
        t.position(cond_col) is Some,
        t.position(target_col) is Some,
        t.primary_index == t.position(target_col),
        new.fits(t.columns[t.position(target_col)->0].coltype),
    ensures
        new == ValueView::Empty ==> t.set_value_where(cond_col, cond, target_col, new) == Err::<
            TableView,
            ErrorView,
        >(ErrorView::PrimaryEmptyRejected),
        new != ValueView::Empty && (t.column_holds(t.position(target_col)->0, new)
            || t.column_holds_twice(t.position(cond_col)->0, cond)) ==> t.set_value_where(
            cond_col,
            cond,
            target_col,
            new,
        ) == Err::<TableView, ErrorView>(ErrorView::PrimaryDuplicateRejected),
{
}

/// An update keeps a table consistent in its shape, and keeps its primary
/// column a key.
pub proof fn law_set_value_where_keeps_consistency(
    t: TableView,
    cond_col: Seq<char>,
    cond: ValueView,
    target_col: Seq<char>,
    new: ValueView,
)
    requires
        t.well_shaped(),
        t.set_value_where(cond_col, cond, target_col, new) is Ok,
    ensures
        t.set_value_where(cond_col, cond, target_col, new)->Ok_0.well_shaped(),
        t.primary_unique() ==> t.set_value_where(
            cond_col,
            cond,
            target_col,
            new,
        )->Ok_0.primary_unique(),
{
    law_set_value_where_changes_every_match(t, cond_col, cond, target_col, new);
    let ci = t.position(cond_col)->0;
    let ti = t.position(target_col)->0;
    let n = t.set_value_where(cond_col, cond, target_col, new)->Ok_0;
    assert forall|r: int| 0 <= r < n.rows.len() implies (#[trigger] n.rows[r]).len()
        == n.columns.len() by {
        assert(t.rows[r].len() == t.columns.len());
    }
    assert forall|r: int, c: int|
        0 <= r < n.rows.len() && 0 <= c < n.rows[r].len() && c < n.columns.len() implies (
    #[trigger] n.rows[r][c]).fits(n.columns[c].coltype) by {
        assert(t.rows[r][c].fits(t.columns[c].coltype));
    }
    if t.primary_index is Some && t.primary_unique() {
        let p = t.primary_index->0;
        if p != ti {
            assert forall|r: int| 0 <= r < n.rows.len() implies (#[trigger] n.rows[r])[p]
                == t.rows[r][p] by {
                assert(n.rows[r][p] == t.rows[r][p]);
            }
            assert(n.is_key(p)) by {
                assert forall|r: int| 0 <= r < n.rows.len() implies (#[trigger] n.rows[r])[p]
                    != ValueView::Empty by {
                    assert(t.rows[r][p] != ValueView::Empty);
                }
                assert forall|r: int, q: int| 0 <= r < q < n.rows.len() implies (
                #[trigger] n.rows[r])[p] != (#[trigger] n.rows[q])[p] by {
                    assert(t.rows[r][p] != t.rows[q][p]);
                }
            }
        } else {
            assert(!t.column_holds_twice(ci, cond));
            assert(!t.column_holds(ti, new));
            assert(n.is_key(p)) by {
                assert forall|r: int| 0 <= r < n.rows.len() implies (#[trigger] n.rows[r])[p]
                    != ValueView::Empty by {
                    assert(n.rows[r][p] == if t.rows[r][ci] == cond {
                        new
                    } else {
                        t.rows[r][p]
                    });
                    assert(t.rows[r][p] != ValueView::Empty);
                }
                assert forall|r: int, q: int| 0 <= r < q < n.rows.len() implies (
                #[trigger] n.rows[r])[p] != (#[trigger] n.rows[q])[p] by {
                    assert(n.rows[r][p] == if t.rows[r][ci] == cond {
                        new
                    } else {
                        t.rows[r][p]
                    });
                    assert(n.rows[q][p] == if t.rows[q][ci] == cond {
                        new
                    } else {
                        t.rows[q][p]
                    });
                    assert(t.rows[r][p] != t.rows[q][p]);
                    assert(!(t.rows[r][ci] == cond && t.rows[q][ci] == cond));
                    assert(t.rows[r][p] != new);
                    assert(t.rows[q][p] != new);
                }
            }
        }
    }
}

/// `from` tells, for each row that was kept, where it stood before; these
/// places rise.
pub open spec fn kept_from(
    rows: Seq<Seq<ValueView>>,
    kept: Seq<Seq<ValueView>>,
    from: Seq<int>,
) -> bool {
    &&& from.len() == kept.len()
    &&& forall|i: int|
        0 <= i < kept.len() ==> 0 <= #[trigger] from[i] < rows.len() && kept[i] == rows[from[i]]
    &&& forall|i: int, j: int| 0 <= i < j < kept.len() ==> #[trigger] from[i] < #[trigger] from[j]
}

/// What dropping rows keeps: exactly the rows that do not hold the value,
/// each as often as before and in the order in which they stood; where no
/// row holds the value, all of them.
pub proof fn law_rows_without(rows: Seq<Seq<ValueView>>, c: int, v: ValueView)
    ensures
        rows_without(rows, c, v).len() <= rows.len(),
        exists|from: Seq<int>| kept_from(rows, rows_without(rows, c, v), from),
        forall|r: int|
            0 <= r < rows_without(rows, c, v).len() ==> !row_holds(
                #[trigger] rows_without(rows, c, v)[r],
                c,
                v,
            ),
        forall|r: int|
            0 <= r < rows.len() && !row_holds(rows[r], c, v) ==> rows_without(rows, c, v).contains(
                #[trigger] rows[r],
            ),
        (forall|r: int| 0 <= r < rows.len() ==> !row_holds(#[trigger] rows[r], c, v))
            ==> rows_without(rows, c, v) == rows,
    decreases rows.len(),
{
    let kept = rows_without(rows, c, v);
    if rows.len() == 0 {
        reveal_with_fuel(Seq::filter, 2);
        assert(kept =~= Seq::empty());
        assert(kept_from(rows, kept, Seq::<int>::empty()));
    } else {
        let front = rows.drop_last();
        let last = rows.last();
        law_rows_without(front, c, v);
        assert(front.push(last) =~= rows);
        lemma_rows_without_push(front, last, c, v);
        let kf = rows_without(front, c, v);
        let ff = choose|from: Seq<int>| kept_from(front, kf, from);
        if row_holds(last, c, v) {
            assert(kept_from(rows, kept, ff));
        } else {
            let from = ff.push(rows.len() - 1);
            assert(kept_from(rows, kept, from));
        }
        assert forall|r: int| 0 <= r < rows.len() && !row_holds(rows[r], c, v) implies kept.contains(
            #[trigger] rows[r],
        ) by {
            if r < front.len() {
                assert(front[r] == rows[r]);
                assert(kf.contains(front[r]));
                let i = choose|i: int| 0 <= i < kf.len() && kf[i] == front[r];
                assert(kept[i] == rows[r]);
            } else {
                assert(kept[kept.len() - 1] == rows[r]);
            }
        }
        if forall|r: int| 0 <= r < rows.len() ==> !row_holds(#[trigger] rows[r], c, v) {
            assert forall|r: int| 0 <= r < front.len() implies !row_holds(
                #[trigger] front[r],
                c,
                v,
            ) by {
                assert(front[r] == rows[r]);
            }
            assert(!row_holds(rows[rows.len() - 1], c, v));
            assert(kept =~= rows);
        }
    }
}

/// `remove_row` on a column that exists always succeeds. It keeps the rows
/// that do not hold the value, every one of them and no other, and changes
/// nothing else.
pub proof fn law_remove_row_drops_every_match(t: TableView, name: Seq<char>, v: ValueView)
    requires
        t.position(name) is Some,
    ensures
        t.remove_row(name, v) is Ok,
        t.remove_row(name, v)->Ok_0.columns == t.columns,
        t.remove_row(name, v)->Ok_0.primary_index == t.primary_index,
        t.remove_row(name, v)->Ok_0.rows == rows_without(t.rows, t.position(name)->0, v),
        forall|r: int|
            0 <= r < t.remove_row(name, v)->Ok_0.rows.len() ==> !row_holds(
                #[trigger] t.remove_row(name, v)->Ok_0.rows[r],
                t.position(name)->0,
                v,
            ),
        forall|r: int|
            0 <= r < t.rows.len() && !row_holds(t.rows[r], t.position(name)->0, v)
                ==> t.remove_row(name, v)->Ok_0.rows.contains(#[trigger] t.rows[r]),
{
    law_rows_without(t.rows, t.position(name)->0, v);
}

/// Removing rows by a value that no row holds succeeds and changes nothing.
pub proof fn law_remove_row_without_match_changes_nothing(
    t: TableView,
    name: Seq<char>,
    v: ValueView,
)
    requires
        t.position(name) is Some,
        forall|r: int| 0 <= r < t.rows.len() ==> !row_holds(#[trigger] t.rows[r], t.position(name)->0, v),
    ensures
        t.remove_row(name, v) == Ok::<TableView, ErrorView>(t),
{
    law_rows_without(t.rows, t.position(name)->0, v);
}

/// Removing rows keeps a table consistent in its shape, and keeps its
/// primary column a key.
pub proof fn law_remove_row_keeps_consistency(t: TableView, name: Seq<char>, v: ValueView)
    requires
        t.well_shaped(),
        t.remove_row(name, v) is Ok,
    ensures
        t.remove_row(name, v)->Ok_0.well_shaped(),
        t.primary_unique() ==> t.remove_row(name, v)->Ok_0.primary_unique(),
{
    let c = t.position(name)->0;
    let n = t.remove_row(name, v)->Ok_0;
    law_rows_without(t.rows, c, v);
    let from = choose|from: Seq<int>| kept_from(t.rows, n.rows, from);
    assert forall|r: int| 0 <= r < n.rows.len() implies (#[trigger] n.rows[r]).len()
        == n.columns.len() by {
        assert(n.rows[r] == t.rows[from[r]]);
    }
    assert forall|r: int, i: int|
        0 <= r < n.rows.len() && 0 <= i < n.rows[r].len() && i < n.columns.len() implies (
    #[trigger] n.rows[r][i]).fits(n.columns[i].coltype) by {
        assert(n.rows[r] == t.rows[from[r]]);
        assert(t.rows[from[r]][i].fits(t.columns[i].coltype));
    }
    if t.primary_index is Some && t.primary_unique() {
        let p = t.primary_index->0;
        assert(n.is_key(p)) by {
            assert forall|r: int| 0 <= r < n.rows.len() implies (#[trigger] n.rows[r])[p]
                != ValueView::Empty by {
                assert(n.rows[r] == t.rows[from[r]]);
                assert(t.rows[from[r]][p] != ValueView::Empty);
            }
            assert forall|r: int, q: int| 0 <= r < q < n.rows.len() implies (
            #[trigger] n.rows[r])[p] != (#[trigger] n.rows[q])[p] by {
                assert(n.rows[r] == t.rows[from[r]]);
                assert(n.rows[q] == t.rows[from[q]]);
                assert(from[r] < from[q]);
                assert(t.rows[from[r]][p] != t.rows[from[q]][p]);
            }
        }
    }
}

} // verus!
