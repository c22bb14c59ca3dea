use data_table::error::TableError;
use data_table::models::{ColumnTable, RowTable};
use data_table::table::DataTable;
use data_table::value::{ColumnType, Value};

#[test]
fn scenario_build_fill_and_update() {
    let mut t = DataTable::new();
    assert_eq!(t.add_column(vec![("id", ColumnType::Numb), ("name", ColumnType::Text)]), Ok(()));
    assert_eq!(t.set_primary("id"), Ok(()));
    assert_eq!(t.add_row(vec![Value::Numb(1), Value::Text("a".to_string())]), Ok(()));
    assert_eq!(t.add_row(vec![Value::Numb(2)]), Ok(()));
    assert_eq!(t.row[1].value, vec![Value::Numb(2), Value::Empty]);
    assert_eq!(
        t.set_value_where("id", Value::Numb(2), "name", Value::Text("b".to_string())),
        Ok(())
    );
    assert_eq!(t.row.len(), 2);
    assert_eq!(t.row[0].value, vec![Value::Numb(1), Value::Text("a".to_string())]);
    assert_eq!(t.row[1].value, vec![Value::Numb(2), Value::Text("b".to_string())]);
    assert_eq!(t.primary_index, Some(0));
}

#[test]
fn scenario_set_primary_on_duplicates_fails_and_primary_stays_unset() {
    let mut t = DataTable {
        column: vec![ColumnTable {
            colname: "id".to_string(),
            coltype: ColumnType::Numb,
            is_primary: false,
            _is_auto_increment: false,
        }],
        row: vec![RowTable { value: vec![Value::Numb(1)] }, RowTable { value: vec![Value::Numb(1)] }],
        _increment: 0,
        primary_index: None,
    };
    assert_eq!(t.set_primary("id"), Err(TableError::PrimaryDuplicateRejected));
    assert_eq!(t.primary_index, None);
    assert!(!t.column[0].is_primary);
    assert_eq!(t.row.len(), 2);
    assert_eq!(t.add_row(vec![Value::Numb(2)]), Err(TableError::NoPrimarySet));
}
