use data_table::error::TableError;
use data_table::models::{ColumnTable, RowTable};
use data_table::table::DataTable;
use data_table::value::{ColumnType, Value};

fn text(s: &str) -> Value {
    Value::Text(s.to_string())
}

fn column(name: &str, coltype: ColumnType, is_primary: bool) -> ColumnTable {
    ColumnTable { colname: name.to_string(), coltype, is_primary, _is_auto_increment: false }
}

/// id (Numb, primary) and name (Text), with the rows (1, a), (2, b), (3, a).
fn people() -> DataTable {
    let mut t = DataTable::new();
    t.add_column(vec![("id", ColumnType::Numb), ("name", ColumnType::Text)]).unwrap();
    t.set_primary("id").unwrap();
    t.add_row(vec![Value::Numb(1), text("a")]).unwrap();
    t.add_row(vec![Value::Numb(2), text("b")]).unwrap();
    t.add_row(vec![Value::Numb(3), text("a")]).unwrap();
    t
}

fn names(t: &DataTable) -> Vec<String> {
    t.column.iter().map(|c| c.colname.clone()).collect()
}

#[test]
fn new_table_is_empty() {
    let t = DataTable::new();
    assert!(t.column.is_empty());
    assert!(t.row.is_empty());
    assert_eq!(t.primary_index, None);
    assert_eq!(t._increment, 0);
}

#[test]
fn add_column_appends_in_order() {
    let mut t = DataTable::new();
    assert_eq!(t.add_column(vec![("id", ColumnType::Numb), ("name", ColumnType::Text)]), Ok(()));
    assert_eq!(t.column.len(), 2);
    assert_eq!(t.column[0], column("id", ColumnType::Numb, false));
    assert_eq!(t.column[1], column("name", ColumnType::Text, false));
    assert_eq!(t.primary_index, None);
}

#[test]
fn add_column_pads_existing_rows_with_empty() {
    let mut t = people();
    assert_eq!(t.add_column(vec![("age", ColumnType::Numb), ("ok", ColumnType::Bool)]), Ok(()));
    assert_eq!(t.column.len(), 4);
    assert_eq!(t.row.len(), 3);
    assert_eq!(t.row[0].value, vec![Value::Numb(1), text("a"), Value::Empty, Value::Empty]);
    assert_eq!(t.row[1].value, vec![Value::Numb(2), text("b"), Value::Empty, Value::Empty]);
    assert_eq!(t.row[2].value, vec![Value::Numb(3), text("a"), Value::Empty, Value::Empty]);
    assert_eq!(t.primary_index, Some(0));
}

#[test]
fn add_column_calls_with_distinct_names_grow_by_their_count() {
    let mut t = people();
    let before = t.column.len();
    t.add_column(vec![("a", ColumnType::Text)]).unwrap();
    t.add_column(vec![]).unwrap();
    t.add_column(vec![("b", ColumnType::Char), ("c", ColumnType::Bool)]).unwrap();
    assert_eq!(t.column.len(), before + 3);
    assert_eq!(names(&t), vec!["id", "name", "a", "b", "c"]);
    for row in &t.row {
        assert_eq!(row.value.len(), before + 3);
        assert_eq!(row.value[2..], [Value::Empty, Value::Empty, Value::Empty]);
    }
}

#[test]
fn add_column_with_a_name_already_present_fails_and_changes_nothing() {
    let mut t = people();
    let before = t.clone();
    assert_eq!(
        t.add_column(vec![("age", ColumnType::Numb), ("name", ColumnType::Text)]),
        Err(TableError::DuplicateColumn("name".to_string()))
    );
    assert_eq!(t, before);
}

#[test]
fn add_column_with_a_name_twice_in_the_batch_is_refused_as_a_whole() {
    let mut t = people();
    let before = t.clone();
    assert_eq!(
        t.add_column(vec![("x", ColumnType::Numb), ("y", ColumnType::Text), ("x", ColumnType::Bool)]),
        Err(TableError::DuplicateColumn("x".to_string()))
    );
    assert_eq!(t, before);
}

#[test]
fn add_column_reports_the_first_taken_name() {
    let mut t = people();
    assert_eq!(
        t.add_column(vec![("x", ColumnType::Numb), ("x", ColumnType::Text), ("id", ColumnType::Bool)]),
        Err(TableError::DuplicateColumn("x".to_string()))
    );
    assert_eq!(
        t.add_column(vec![("id", ColumnType::Numb), ("x", ColumnType::Text), ("x", ColumnType::Bool)]),
        Err(TableError::DuplicateColumn("id".to_string()))
    );
}

#[test]
fn add_column_names_are_case_sensitive() {
    let mut t = people();
    assert_eq!(t.add_column(vec![("ID", ColumnType::Numb)]), Ok(()));
    assert_eq!(names(&t), vec!["id", "name", "ID"]);
}

#[test]
fn add_column_leaves_rows_that_are_long_enough() {
    let mut t = DataTable {
        column: vec![column("a", ColumnType::Numb, false)],
        row: vec![
            RowTable { value: vec![] },
            RowTable { value: vec![Value::Numb(1), Value::Numb(2), Value::Numb(3)] },
        ],
        _increment: 0,
        primary_index: None,
    };
    t.add_column(vec![("b", ColumnType::Numb)]).unwrap();
    assert_eq!(t.row[0].value, vec![Value::Empty, Value::Empty]);
    assert_eq!(t.row[1].value, vec![Value::Numb(1), Value::Numb(2), Value::Numb(3)]);
}

#[test]
fn remove_column_of_an_unknown_name_fails() {
    let mut t = people();
    let before = t.clone();
    assert_eq!(t.remove_column("age"), Err(TableError::ColumnNotFound("age".to_string())));
    assert_eq!(t, before);
}

#[test]
fn remove_column_refuses_the_primary_column() {
    let mut t = people();
    let before = t.clone();
    assert_eq!(t.remove_column("id"), Err(TableError::PrimaryColumnProtected("id".to_string())));
    assert_eq!(t, before);
}

#[test]
fn remove_column_before_the_primary_moves_the_primary_index_down() {
    let mut t = DataTable::new();
    t.add_column(vec![("a", ColumnType::Text), ("b", ColumnType::Text), ("id", ColumnType::Numb), ("z", ColumnType::Bool)])
        .unwrap();
    t.set_primary("id").unwrap();
    t.add_row(vec![text("a1"), text("b1"), Value::Numb(1), Value::Bool(true)]).unwrap();
    t.add_row(vec![text("a2"), text("b2"), Value::Numb(2), Value::Bool(false)]).unwrap();
    assert_eq!(t.primary_index, Some(2));
    assert_eq!(t.remove_column("a"), Ok(()));
    assert_eq!(t.primary_index, Some(1));
    assert_eq!(names(&t), vec!["b", "id", "z"]);
    assert!(t.column[1].is_primary);
    assert_eq!(t.row[0].value, vec![text("b1"), Value::Numb(1), Value::Bool(true)]);
    assert_eq!(t.row[1].value, vec![text("b2"), Value::Numb(2), Value::Bool(false)]);
    assert_eq!(t._get_column_is_primary_active(), Some("id"));
}

#[test]
fn remove_column_behind_the_primary_keeps_the_primary_index() {
    let mut t = people();
    assert_eq!(t.remove_column("name"), Ok(()));
    assert_eq!(t.primary_index, Some(0));
    assert_eq!(names(&t), vec!["id"]);
    assert_eq!(t.row[0].value, vec![Value::Numb(1)]);
    assert_eq!(t.row[1].value, vec![Value::Numb(2)]);
    assert_eq!(t.row[2].value, vec![Value::Numb(3)]);
}

#[test]
fn remove_column_without_primary_keeps_it_unset() {
    let mut t = DataTable::new();
    t.add_column(vec![("a", ColumnType::Text), ("b", ColumnType::Text)]).unwrap();
    assert_eq!(t.remove_column("a"), Ok(()));
    assert_eq!(t.primary_index, None);
    assert_eq!(names(&t), vec!["b"]);
}

#[test]
fn remove_column_leaves_rows_too_short_to_hold_it() {
    let mut t = DataTable {
        column: vec![column("a", ColumnType::Numb, false), column("b", ColumnType::Numb, false)],
        row: vec![RowTable { value: vec![Value::Numb(1)] }, RowTable { value: vec![Value::Numb(1), Value::Numb(2)] }],
        _increment: 0,
        primary_index: None,
    };
    t.remove_column("b").unwrap();
    assert_eq!(t.row[0].value, vec![Value::Numb(1)]);
    assert_eq!(t.row[1].value, vec![Value::Numb(1)]);
}

#[test]
fn set_primary_of_an_unknown_name_fails() {
    let mut t = people();
    let before = t.clone();
    assert_eq!(t.set_primary("age"), Err(TableError::ColumnNotFound("age".to_string())));
    assert_eq!(t, before);
}

#[test]
fn set_primary_on_a_table_without_rows_takes_any_column() {
    let mut t = DataTable::new();
    t.add_column(vec![("id", ColumnType::Numb), ("name", ColumnType::Text)]).unwrap();
    assert_eq!(t.set_primary("name"), Ok(()));
    assert_eq!(t.primary_index, Some(1));
    assert!(!t.column[0].is_primary);
    assert!(t.column[1].is_primary);
}

#[test]
fn set_primary_on_the_primary_column_changes_nothing() {
    let mut t = people();
    let before = t.clone();
    assert_eq!(t.set_primary("id"), Ok(()));
    assert_eq!(t, before);
}

#[test]
fn set_primary_moves_the_flag_to_the_new_column() {
    let mut t = people();
    t.set_value_where("id", Value::Numb(3), "name", text("c")).unwrap();
    assert_eq!(t.set_primary("name"), Ok(()));
    assert_eq!(t.primary_index, Some(1));
    assert!(!t.column[0].is_primary);
    assert!(t.column[1].is_primary);
    assert_eq!(t._get_column_is_primary_active(), Some("name"));
}

#[test]
fn set_primary_refuses_a_column_with_an_empty_value() {
    let mut t = people();
    t.add_row(vec![Value::Numb(4)]).unwrap();
    t.set_value_where("id", Value::Numb(3), "name", text("c")).unwrap();
    let before = t.clone();
    assert_eq!(t.set_primary("name"), Err(TableError::PrimaryEmptyRejected));
    assert_eq!(t, before);
    assert_eq!(t.primary_index, Some(0));
    assert!(t.column[0].is_primary);
    assert!(!t.column[1].is_primary);
}

#[test]
fn set_primary_refuses_a_column_with_a_value_twice() {
    let mut t = people();
    let before = t.clone();
    assert_eq!(t.set_primary("name"), Err(TableError::PrimaryDuplicateRejected));
    assert_eq!(t, before);
}

#[test]
fn set_primary_looks_for_empty_before_it_looks_for_duplicates() {
    let mut t = people();
    t.add_row(vec![Value::Numb(4)]).unwrap();
    assert_eq!(t.set_primary("name"), Err(TableError::PrimaryEmptyRejected));
}

#[test]
fn set_primary_refuses_a_column_with_a_value_of_another_type() {
    let mut t = DataTable {
        column: vec![column("id", ColumnType::Numb, false), column("name", ColumnType::Text, false)],
        row: vec![
            RowTable { value: vec![Value::Numb(1), text("a")] },
            RowTable { value: vec![text("two"), text("b")] },
        ],
        _increment: 0,
        primary_index: None,
    };
    let before = t.clone();
    assert_eq!(t.set_primary("id"), Err(TableError::TypeMismatch("id".to_string())));
    assert_eq!(t, before);
    assert_eq!(t._validate_primary_candidate(0), Err(TableError::TypeMismatch("id".to_string())));
    assert_eq!(t._validate_primary_candidate(1), Ok(()));
}

#[test]
fn add_row_fails_before_a_primary_is_set_even_with_columns() {
    let mut t = DataTable::new();
    assert_eq!(t.add_row(vec![]), Err(TableError::NoPrimarySet));
    t.add_column(vec![("id", ColumnType::Numb)]).unwrap();
    let before = t.clone();
    assert_eq!(t.add_row(vec![Value::Numb(1)]), Err(TableError::NoPrimarySet));
    assert_eq!(t.add_row(vec![Value::Numb(1), Value::Numb(2)]), Err(TableError::NoPrimarySet));
    assert_eq!(t, before);
}

#[test]
fn add_row_with_more_values_than_columns_fails() {
    let mut t = people();
    let before = t.clone();
    assert_eq!(
        t.add_row(vec![Value::Numb(4), text("d"), Value::Bool(true)]),
        Err(TableError::TooManyValues { given: 3, columns: 2 })
    );
    assert_eq!(t, before);
}

#[test]
fn add_row_pads_the_values_that_are_missing() {
    let mut t = people();
    assert_eq!(t.add_row(vec![Value::Numb(4)]), Ok(()));
    assert_eq!(t.row.len(), 4);
    assert_eq!(t.row[3].value, vec![Value::Numb(4), Value::Empty]);
    let before = t.clone();
    assert_eq!(t.add_row(vec![]), Err(TableError::PrimaryEmptyRejected));
    assert_eq!(t, before);
}

#[test]
fn add_row_names_the_first_column_whose_type_a_value_does_not_have() {
    let mut t = people();
    let before = t.clone();
    assert_eq!(t.add_row(vec![text("4"), Value::Numb(4)]), Err(TableError::TypeMismatch("id".to_string())));
    assert_eq!(t.add_row(vec![Value::Numb(4), Value::Char('d')]), Err(TableError::TypeMismatch("name".to_string())));
    assert_eq!(t, before);
}

#[test]
fn add_row_takes_empty_in_any_column_but_the_primary() {
    let mut t = people();
    assert_eq!(t.add_row(vec![Value::Numb(4), Value::Empty]), Ok(()));
    assert_eq!(t.row[3].value, vec![Value::Numb(4), Value::Empty]);
    let before = t.clone();
    assert_eq!(t.add_row(vec![Value::Empty, Value::Empty]), Err(TableError::PrimaryEmptyRejected));
    assert_eq!(t.add_row(vec![Value::Empty, text("e")]), Err(TableError::PrimaryEmptyRejected));
    assert_eq!(t, before);
}

#[test]
fn add_row_refuses_a_primary_value_that_a_row_holds() {
    let mut t = people();
    let before = t.clone();
    assert_eq!(
        t.add_row(vec![Value::Numb(1), text("again")]),
        Err(TableError::PrimaryDuplicateRejected)
    );
    assert_eq!(t.add_row(vec![Value::Numb(3)]), Err(TableError::PrimaryDuplicateRejected));
    assert_eq!(t, before);
    assert_eq!(t.add_row(vec![Value::Numb(4), text("a")]), Ok(()));
    assert_eq!(t.row.len(), 4);
}

#[test]
fn add_row_checks_the_types_before_the_primary_value() {
    let mut t = people();
    assert_eq!(
        t.add_row(vec![Value::Numb(1), Value::Numb(1)]),
        Err(TableError::TypeMismatch("name".to_string()))
    );
    assert_eq!(
        t.add_row(vec![Value::Empty, Value::Numb(1)]),
        Err(TableError::TypeMismatch("name".to_string()))
    );
}

#[test]
fn add_row_keeps_the_primary_column_a_key() {
    let mut t = people();
    for v in [1, 2, 3, 4, 4, 5, 1] {
        let _ = t.add_row(vec![Value::Numb(v), text("x")]);
        let _ = t.add_row(vec![]);
    }
    let keys: Vec<&Value> = t.row.iter().map(|r| &r.value[0]).collect();
    assert_eq!(keys, vec![&Value::Numb(1), &Value::Numb(2), &Value::Numb(3), &Value::Numb(4), &Value::Numb(5)]);
}

#[test]
fn add_row_does_not_count_rows_too_short_for_the_primary_column() {
    let mut t = DataTable {
        column: vec![column("name", ColumnType::Text, false), column("id", ColumnType::Numb, true)],
        row: vec![RowTable { value: vec![text("short")] }, RowTable { value: vec![text("a"), Value::Numb(1)] }],
        _increment: 0,
        primary_index: Some(1),
    };
    assert_eq!(t.add_row(vec![text("b"), Value::Numb(1)]), Err(TableError::PrimaryDuplicateRejected));
    assert_eq!(t.add_row(vec![text("b"), Value::Numb(2)]), Ok(()));
    assert!(t.column_has(1, &Value::Numb(2)));
    assert!(!t.column_has(1, &Value::Numb(3)));
    assert!(!t.column_has(5, &Value::Numb(2)));
}

#[test]
fn validate_type_accepts_empty_and_the_own_kind_only() {
    let types = [ColumnType::Text, ColumnType::Numb, ColumnType::Bool, ColumnType::Char];
    let values = [text("x"), Value::Numb(1), Value::Bool(true), Value::Char('c')];
    for (i, t) in types.iter().enumerate() {
        assert!(DataTable::_validate_type_column_and_row(t, &Value::Empty));
        for (j, v) in values.iter().enumerate() {
            assert_eq!(DataTable::_validate_type_column_and_row(t, v), i == j);
        }
    }
}

#[test]
fn set_value_where_changes_every_row_that_meets_the_condition() {
    let mut t = people();
    assert_eq!(t.set_value_where("name", text("a"), "name", text("z")), Ok(()));
    assert_eq!(t.row[0].value, vec![Value::Numb(1), text("z")]);
    assert_eq!(t.row[1].value, vec![Value::Numb(2), text("b")]);
    assert_eq!(t.row[2].value, vec![Value::Numb(3), text("z")]);
}

#[test]
fn set_value_where_can_set_empty_in_an_ordinary_column() {
    let mut t = people();
    assert_eq!(t.set_value_where("id", Value::Numb(2), "name", Value::Empty), Ok(()));
    assert_eq!(t.row[1].value, vec![Value::Numb(2), Value::Empty]);
    assert_eq!(t.row[0].value, vec![Value::Numb(1), text("a")]);
}

#[test]
fn set_value_where_without_a_matching_row_fails() {
    let mut t = people();
    let before = t.clone();
    assert_eq!(t.set_value_where("id", Value::Numb(9), "name", text("z")), Err(TableError::NoMatchingRow));
    assert_eq!(t, before);
}

#[test]
fn set_value_where_names_the_column_that_is_missing() {
    let mut t = people();
    let before = t.clone();
    assert_eq!(
        t.set_value_where("x", Value::Numb(1), "y", text("z")),
        Err(TableError::ColumnNotFound("x".to_string()))
    );
    assert_eq!(
        t.set_value_where("id", Value::Numb(1), "y", text("z")),
        Err(TableError::ColumnNotFound("y".to_string()))
    );
    assert_eq!(t, before);
}

#[test]
fn set_value_where_checks_the_type_of_the_new_value() {
    let mut t = people();
    let before = t.clone();
    assert_eq!(
        t.set_value_where("id", Value::Numb(1), "name", Value::Numb(5)),
        Err(TableError::TypeMismatch("name".to_string()))
    );
    assert_eq!(t, before);
}

#[test]
fn set_value_where_refuses_empty_for_the_primary_column() {
    let mut t = people();
    let before = t.clone();
    assert_eq!(t.set_value_where("id", Value::Numb(1), "id", Value::Empty), Err(TableError::PrimaryEmptyRejected));
    assert_eq!(t, before);
}

#[test]
fn set_value_where_refuses_a_primary_value_that_a_row_holds() {
    let mut t = people();
    let before = t.clone();
    assert_eq!(
        t.set_value_where("id", Value::Numb(1), "id", Value::Numb(2)),
        Err(TableError::PrimaryDuplicateRejected)
    );
    // The row that is to change counts too.
    assert_eq!(
        t.set_value_where("id", Value::Numb(1), "id", Value::Numb(1)),
        Err(TableError::PrimaryDuplicateRejected)
    );
    // The check comes before the search for a matching row.
    assert_eq!(
        t.set_value_where("id", Value::Numb(9), "id", Value::Numb(2)),
        Err(TableError::PrimaryDuplicateRejected)
    );
    assert_eq!(t, before);
}

#[test]
fn set_value_where_refuses_to_give_one_primary_value_to_several_rows() {
    let mut t = people();
    let before = t.clone();
    assert_eq!(
        t.set_value_where("name", text("a"), "id", Value::Numb(5)),
        Err(TableError::PrimaryDuplicateRejected)
    );
    assert_eq!(t, before);
    assert_eq!(t.column_holds_once_twice(1, &text("a")), (true, true));
    assert_eq!(t.column_holds_once_twice(1, &text("b")), (true, false));
    assert_eq!(t.column_holds_once_twice(1, &text("c")), (false, false));
}

#[test]
fn set_value_where_gives_the_primary_column_a_new_value() {
    let mut t = people();
    assert_eq!(t.set_value_where("name", text("b"), "id", Value::Numb(20)), Ok(()));
    assert_eq!(t.row[1].value, vec![Value::Numb(20), text("b")]);
    assert_eq!(t.row[0].value, vec![Value::Numb(1), text("a")]);
    assert_eq!(t.row[2].value, vec![Value::Numb(3), text("a")]);
}

#[test]
fn remove_row_removes_every_row_that_holds_the_value() {
    let mut t = people();
    assert_eq!(t.remove_row("name", text("a")), Ok(()));
    assert_eq!(t.row.len(), 1);
    assert_eq!(t.row[0].value, vec![Value::Numb(2), text("b")]);
    assert_eq!(t.column.len(), 2);
    assert_eq!(t.primary_index, Some(0));
}

#[test]
fn remove_row_keeps_the_order_of_the_rows_that_stay() {
    let mut t = people();
    assert_eq!(t.remove_row("id", Value::Numb(2)), Ok(()));
    assert_eq!(t.row.len(), 2);
    assert_eq!(t.row[0].value, vec![Value::Numb(1), text("a")]);
    assert_eq!(t.row[1].value, vec![Value::Numb(3), text("a")]);
}

#[test]
fn remove_row_that_matches_no_row_succeeds_and_changes_nothing() {
    let mut t = people();
    let before = t.clone();
    assert_eq!(t.remove_row("id", Value::Numb(9)), Ok(()));
    assert_eq!(t, before);
    assert_eq!(t.remove_row("id", text("1")), Ok(()));
    assert_eq!(t, before);
}

#[test]
fn remove_row_of_an_unknown_column_fails() {
    let mut t = people();
    let before = t.clone();
    assert_eq!(t.remove_row("age", Value::Numb(1)), Err(TableError::ColumnNotFound("age".to_string())));
    assert_eq!(t, before);
}

#[test]
fn remove_row_keeps_rows_too_short_to_hold_the_column() {
    let mut t = DataTable {
        column: vec![column("a", ColumnType::Numb, false), column("b", ColumnType::Numb, false)],
        row: vec![RowTable { value: vec![Value::Numb(1)] }, RowTable { value: vec![Value::Numb(1), Value::Numb(2)] }],
        _increment: 0,
        primary_index: None,
    };
    t.remove_row("b", Value::Numb(2)).unwrap();
    assert_eq!(t.row.len(), 1);
    assert_eq!(t.row[0].value, vec![Value::Numb(1)]);
}

#[test]
fn column_position_finds_the_first_column_of_a_name() {
    let t = people();
    assert_eq!(t.column_position("id"), Some(0));
    assert_eq!(t.column_position("name"), Some(1));
    assert_eq!(t.column_position("Name"), None);
    assert_eq!(t.column_position(""), None);
}

#[test]
fn column_holds_looks_through_all_rows() {
    let t = people();
    assert!(t.column_holds(1, &text("b")));
    assert!(t.column_holds(0, &Value::Numb(3)));
    assert!(!t.column_holds(0, &Value::Numb(4)));
    assert!(!t.column_holds(1, &Value::Empty));
}

#[test]
fn counter_goes_up_and_down_by_one() {
    let mut t = DataTable::new();
    assert_eq!(t._increment(), 1);
    assert_eq!(t._increment(), 2);
    assert_eq!(t._increment, 2);
    assert_eq!(t._decrement(), 1);
    assert_eq!(t._decrement(), 0);
    assert_eq!(t._decrement(), -1);
    assert_eq!(t._increment, -1);
    assert!(t.column.is_empty());
}

#[test]
fn flagged_columns_are_found_by_their_flags() {
    let mut t = DataTable::new();
    t.add_column(vec![("id", ColumnType::Numb), ("name", ColumnType::Text)]).unwrap();
    assert_eq!(t._get_column_is_primary_active(), None);
    assert_eq!(t._get_column_is_increment_active(), None);
    t.set_primary("name").unwrap();
    assert_eq!(t._get_column_is_primary_active(), Some("name"));
    t.column[0]._is_auto_increment = true;
    assert_eq!(t._get_column_is_increment_active(), Some("id"));
}

#[test]
fn rows_aligned_tells_whether_every_row_fits_the_columns() {
    let mut t = people();
    assert!(t.rows_aligned());
    t.row[1].value.pop();
    assert!(!t.rows_aligned());
    assert!(DataTable::new().rows_aligned());
}

#[test]
fn rows_reach_tells_whether_every_row_has_the_column() {
    let mut t = people();
    assert!(t.rows_reach(0));
    assert!(t.rows_reach(1));
    assert!(!t.rows_reach(2));
    t.row[1].value.pop();
    assert!(t.rows_reach(0));
    assert!(!t.rows_reach(1));
    assert!(DataTable::new().rows_reach(5));
}

#[test]
fn operations_work_on_rows_that_reach_the_columns_they_read() {
    let mut t = people();
    t.row[0].value.push(Value::Bool(true));
    t.row[2].value.pop();
    assert!(!t.rows_aligned());
    assert_eq!(t.set_value_where("id", Value::Numb(3), "id", Value::Numb(30)), Ok(()));
    assert_eq!(t.row[2].value, vec![Value::Numb(30)]);
    assert_eq!(t.set_primary("id"), Ok(()));
    assert_eq!(t.set_primary("missing"), Err(TableError::ColumnNotFound("missing".to_string())));
    // Naming the primary column again looks into no row.
    t.row[1].value.clear();
    assert!(!t.rows_reach(0));
    assert_eq!(t.set_primary("id"), Ok(()));
}

#[test]
fn clone_gives_an_equal_table() {
    let t = people();
    let c = t.clone();
    assert_eq!(c, t);
    assert_eq!(c.row[2].value, vec![Value::Numb(3), text("a")]);
}

#[test]
fn values_compare_by_kind_and_content() {
    assert_eq!(text("a"), text("a"));
    assert_ne!(text("a"), text("b"));
    assert_ne!(text("1"), Value::Numb(1));
    assert_ne!(text("c"), Value::Char('c'));
    assert_ne!(Value::Numb(1), Value::Bool(true));
    assert_eq!(Value::Empty, Value::Empty);
    assert_ne!(Value::Empty, text(""));
    assert!(Value::Empty.is_empty());
    assert!(!text("").is_empty());
    assert_eq!(Value::Char('x').clone(), Value::Char('x'));
}
