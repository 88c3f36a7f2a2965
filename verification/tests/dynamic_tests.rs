use diesel_builders::schema::{ColumnCheck, ColumnDef, ForeignKeyDef, HorizontalKeyDef, Schema, TableDef};
use diesel_builders::value::{Value, ValueKind};
use diesel_builders::builder_error::DynamicColumnError;
use diesel_builders::columns::{
    check_columns, Columns, ColumnsCollection, HasNestedDynColumns, HomogeneouslyTypedColumns,
    HomogeneouslyTypedNestedColumns, NestedColumns, NestedColumnsCollection, NestedDynColumns,
};
use diesel_builders::dynamic_columns::{DynColumn, TryGetDynamicColumn, TryGetDynamicColumns, VariadicTryGetDynamicColumn};
use diesel_builders::foreign_keys::{IterDynForeignKeys, IterForeignKeys};
use diesel_builders::get_model::{GetModel, GetModelExt, GetNestedModel, GetNestedModelExt};
use diesel_builders::get_set_columns::GetColumn;
use diesel_builders::model::Model;

fn col(
    name: &'static str,
    kind: ValueKind,
    nullable: bool,
    default_value: Option<Option<Value>>,
    check: ColumnCheck,
) -> ColumnDef {
    ColumnDef { name, kind, nullable, default_value, check }
}

fn schema() -> Schema {
    let users = TableDef {
        name: "users",
        columns: vec![
            col("id", ValueKind::Integer, false, None, ColumnCheck::Unchecked),
            col("age", ValueKind::Integer, true, Some(None), ColumnCheck::Range { min: 0, max: 150 }),
            col("active", ValueKind::Boolean, false, Some(Some(Value::Boolean(true))), ColumnCheck::Unchecked),
        ],
        primary_key: 0,
        ancestors: vec![],
        mandatory_keys: vec![],
        discretionary_keys: vec![],
        indexes: vec![],
        foreign_keys: vec![],
    };
    let teams = TableDef {
        name: "teams",
        columns: vec![
            col("id", ValueKind::Integer, false, None, ColumnCheck::Unchecked),
            col("owner_age", ValueKind::Integer, true, Some(None), ColumnCheck::Range { min: 0, max: 99 }),
            col("score", ValueKind::Integer, false, Some(Some(Value::Integer(0))), ColumnCheck::Range { min: 0, max: 100 }),
        ],
        primary_key: 0,
        ancestors: vec![],
        mandatory_keys: vec![],
        discretionary_keys: vec![],
        indexes: vec![],
        foreign_keys: vec![],
    };
    let members = TableDef {
        name: "members",
        columns: vec![
            col("id", ValueKind::Integer, false, None, ColumnCheck::Unchecked),
            col("team_id", ValueKind::Integer, false, None, ColumnCheck::Unchecked),
            col("age", ValueKind::Integer, true, Some(None), ColumnCheck::Range { min: 0, max: 150 }),
            col("mentor_id", ValueKind::Integer, true, Some(None), ColumnCheck::Unchecked),
            col("level", ValueKind::Integer, false, None, ColumnCheck::Range { min: 1, max: 10 }),
        ],
        primary_key: 0,
        ancestors: vec![0],
        mandatory_keys: vec![HorizontalKeyDef {
            key_column: 1,
            referenced_table: 1,
            host_columns: vec![2],
            foreign_columns: vec![1],
        }],
        discretionary_keys: vec![HorizontalKeyDef {
            key_column: 3,
            referenced_table: 0,
            host_columns: vec![2],
            foreign_columns: vec![1],
        }],
        indexes: vec![],
        foreign_keys: vec![
            ForeignKeyDef { host_columns: vec![1], referenced_table: 1, referenced_columns: vec![0] },
            ForeignKeyDef { host_columns: vec![3], referenced_table: 0, referenced_columns: vec![0] },
            ForeignKeyDef { host_columns: vec![0], referenced_table: 0, referenced_columns: vec![0] },
        ],
    };
    Schema { tables: vec![users, teams, members] }
}

fn ival(x: i64) -> Option<Value> {
    Some(Value::Integer(x))
}

fn user(id: i64, age: Option<Value>) -> Model {
    Model { table: 0, values: vec![ival(id), age, Some(Value::Boolean(true))] }
}

fn member(id: i64, mentor: Option<Value>) -> Model {
    Model { table: 2, values: vec![ival(id), ival(7), ival(20), mentor, ival(4)] }
}

#[test]
fn dynamic_read_of_a_record() {
    let s = schema();
    let m = user(1, ival(30));
    let age = DynColumn::of(&s, 0, 1);
    assert_eq!(age, DynColumn { table: 0, column: 1, kind: ValueKind::Integer });
    assert_eq!(age.table_name(&s), "users");
    assert_eq!(age.column_name(&s), "age");
    match m.try_get_dynamic_column(&s, age) {
        Ok(v) => assert_eq!(v, ival(30)),
        Err(_) => panic!("the column of the record was refused"),
    }
    match m.try_get_dynamic_column_ref(&s, age) {
        Ok(Some(v)) => assert_eq!(*v, Value::Integer(30)),
        _ => panic!("the column of the record was refused"),
    }
    assert!(m.get_column(1) == ival(30));
}

#[test]
fn dynamic_read_with_another_kind_is_refused() {
    let s = schema();
    let m = user(1, ival(30));
    let wrong = DynColumn { table: 0, column: 1, kind: ValueKind::Boolean };
    match m.try_get_dynamic_column(&s, wrong) {
        Err(DynamicColumnError::UnknownColumn { table_name, column_name }) => {
            assert_eq!(table_name, "users");
            assert_eq!(column_name, "age");
        }
        _ => panic!("a column read with another kind was accepted"),
    }
    let other = DynColumn::of(&s, 2, 4);
    match m.try_get_dynamic_column(&s, other) {
        Err(DynamicColumnError::UnknownColumn { table_name, column_name }) => {
            assert_eq!(table_name, "members");
            assert_eq!(column_name, "level");
        }
        _ => panic!("a column of another table was accepted"),
    }
}

#[test]
fn dynamic_read_through_ancestors() {
    let s = schema();
    let chain = vec![user(5, ival(41)), member(5, None)];
    match chain.try_get_dynamic_column(&s, DynColumn::of(&s, 0, 1)) {
        Ok(v) => assert_eq!(v, ival(41)),
        Err(_) => panic!("ancestor column refused"),
    }
    match chain.try_get_dynamic_column(&s, DynColumn::of(&s, 2, 2)) {
        Ok(v) => assert_eq!(v, ival(20)),
        Err(_) => panic!("own column refused"),
    }
    assert!(chain.try_get_dynamic_column(&s, DynColumn::of(&s, 1, 1)).is_err());
}

#[test]
fn several_dynamic_reads() {
    let s = schema();
    let chain = vec![user(5, None), member(5, ival(2))];
    let cols = vec![DynColumn::of(&s, 2, 3), DynColumn::of(&s, 0, 1), DynColumn::of(&s, 0, 2)];
    match chain.try_get_dynamic_columns(&s, &cols) {
        Ok(v) => assert_eq!(v, vec![ival(2), None, Some(Value::Boolean(true))]),
        Err(_) => panic!("readable columns refused"),
    }
    let bad = vec![DynColumn::of(&s, 0, 1), DynColumn::of(&s, 1, 2), DynColumn::of(&s, 1, 1)];
    match chain.try_get_dynamic_columns(&s, &bad) {
        Err(DynamicColumnError::UnknownColumn { table_name, column_name }) => {
            assert_eq!(table_name, "teams");
            assert_eq!(column_name, "score");
        }
        _ => panic!("the first unreadable column was not reported"),
    }
}

#[test]
fn foreign_keys_referencing_an_index() {
    let s = schema();
    let m = member(5, None);
    let index = vec![DynColumn::of(&s, 0, 0)];
    match m.iter_foreign_key_dyn_columns(&s, &index) {
        Ok(groups) => {
            assert_eq!(groups, vec![vec![DynColumn::of(&s, 2, 3)], vec![DynColumn::of(&s, 2, 0)]]);
        }
        Err(_) => panic!("matching foreign keys refused"),
    }
    let teams_index = vec![DynColumn::of(&s, 1, 0)];
    match m.iter_foreign_key_dyn_columns(&s, &teams_index) {
        Ok(groups) => assert_eq!(groups, vec![vec![DynColumn::of(&s, 2, 1)]]),
        Err(_) => panic!("matching foreign keys refused"),
    }
    let none = vec![DynColumn::of(&s, 1, 2)];
    match m.iter_foreign_key_dyn_columns(&s, &none) {
        Ok(groups) => assert!(groups.is_empty()),
        Err(_) => panic!("an unreferenced index was refused"),
    }
}

#[test]
fn foreign_key_index_of_another_kind_is_refused() {
    let s = schema();
    let m = member(5, None);
    let index = vec![DynColumn { table: 0, column: 0, kind: ValueKind::Boolean }];
    match m.iter_foreign_key_dyn_columns(&s, &index) {
        Err(DynamicColumnError::UnknownColumn { table_name, column_name }) => {
            assert_eq!(table_name, "users");
            assert_eq!(column_name, "id");
        }
        _ => panic!("an index read with another kind was accepted"),
    }
}

#[test]
fn simple_and_full_matches() {
    let s = schema();
    let m = member(5, None);
    let index = vec![DynColumn::of(&s, 0, 0)];
    match m.iter_dyn_match_simple(&s, &index) {
        Ok(items) => {
            assert_eq!(items.len(), 2);
            assert!(matches!(&items[0], Ok(v) if *v == vec![None]));
            assert!(matches!(&items[1], Ok(v) if *v == vec![ival(5)]));
        }
        Err(_) => panic!("simple match refused"),
    }
    match m.iter_dyn_match_full(&s, &index) {
        Ok(items) => {
            assert_eq!(items.len(), 1);
            assert!(matches!(&items[0], Ok(v) if *v == vec![Value::Integer(5)]));
        }
        Err(_) => panic!("full match refused"),
    }
    let with_mentor = member(5, ival(9));
    match with_mentor.iter_dyn_match_full(&s, &index) {
        Ok(items) => assert_eq!(items.len(), 2),
        Err(_) => panic!("full match refused"),
    }
}

#[test]
fn static_matches_over_ancestors() {
    let s = schema();
    let chain = vec![user(5, None), member(5, ival(9))];
    let cols = vec![0];
    assert_eq!(chain.iter_foreign_key_columns(&s, 0, &cols), vec![vec![DynColumn::of(&s, 2, 3)], vec![
        DynColumn::of(&s, 2, 0),
    ]]);
    assert_eq!(chain.iter_match_simple(&s, 0, &cols), vec![vec![ival(9)], vec![ival(5)]]);
    assert_eq!(chain.iter_match_full(&s, 0, &cols), vec![vec![Value::Integer(9)], vec![Value::Integer(5)]]);
    let lone = vec![member(5, None)];
    assert_eq!(lone.iter_match_full(&s, 0, &cols), vec![vec![Value::Integer(5)]]);
    let m = member(6, None);
    assert_eq!(m.iter_match_simple(&s, 1, &cols), vec![vec![ival(7)]]);
}

#[test]
fn records_of_a_chain_by_table() {
    let s = schema();
    let chain = vec![user(5, ival(41)), member(5, None)];
    let u = chain.get_model(&s, 0);
    assert_eq!(u.table, 0);
    assert_eq!(u.values, vec![ival(5), ival(41), Some(Value::Boolean(true))]);
    assert_eq!(chain.get_model_ref(&s, 2).values[4], ival(4));
    assert_eq!(chain.model_of(&s, 2).table, 2);
    let nested = chain.get_nested_model(&s, 0);
    assert_eq!(nested.len(), 1);
    assert_eq!(nested[0].values[1], ival(41));
    let all = chain.nested_model_of_table(&s, 2);
    assert_eq!(all.len(), 2);
    assert_eq!(all[1].values, chain[1].values);
    let copy = chain[0].duplicate();
    assert_eq!(copy.values, chain[0].values);
}

#[test]
fn column_names_and_dynamic_names() {
    let s = schema();
    let cols: Vec<(usize, usize)> = vec![(2, 4), (0, 1)];
    assert_eq!(cols.nested_column_names(&s), vec!["level", "age"]);
    assert_eq!(cols.nested_table_names(&s), vec!["members", "users"]);
    assert_eq!(cols.column_tables(), vec![2, 0]);
    let dyns = cols.nested_dyn_columns(&s);
    assert_eq!(dyns, vec![DynColumn::of(&s, 2, 4), DynColumn::of(&s, 0, 1)]);
    assert_eq!(dyns.nested_dyn_column_names(&s), cols.nested_column_names(&s));
    assert_eq!(dyns.nested_dyn_column_table_names(&s), cols.nested_table_names(&s));
}

#[test]
fn homogeneous_columns() {
    let s = schema();
    let ints: Vec<(usize, usize)> = vec![(0, 0), (2, 4)];
    let mixed: Vec<(usize, usize)> = vec![(0, 0), (0, 2)];
    assert!(ints.is_homogeneously_typed(&s, ValueKind::Integer));
    assert!(!ints.is_homogeneously_typed(&s, ValueKind::Boolean));
    assert!(!mixed.is_homogeneously_typed(&s, ValueKind::Integer));
    assert_eq!(ints.common_value_kind(&s), Some(ValueKind::Integer));
    assert_eq!(mixed.common_value_kind(&s), None);
    let empty: Vec<(usize, usize)> = vec![];
    assert_eq!(empty.common_value_kind(&s), None);
}

#[test]
fn matrices_of_columns() {
    let s = schema();
    let m: Vec<Vec<(usize, usize)>> = vec![vec![(0, 0)], vec![], vec![(2, 1), (2, 3)]];
    assert!(m.columns_collection_wf(&s));
    assert_eq!(m.flattened_columns(), vec![(0, 0), (2, 1), (2, 3)]);
    let bad: Vec<Vec<(usize, usize)>> = vec![vec![(0, 0)], vec![(1, 9)]];
    assert!(!bad.columns_collection_wf(&s));
    assert!(check_columns(&s, &vec![(1, 2)]));
    assert!(!check_columns(&s, &vec![(3, 0)]));
}

fn text_schema() -> Schema {
    let users = TableDef {
        name: "users",
        columns: vec![
            col("id", ValueKind::Integer, false, None, ColumnCheck::Unchecked),
            col("name", ValueKind::Text, false, None, ColumnCheck::NonEmpty),
            col("bio", ValueKind::Text, true, Some(None), ColumnCheck::MaxLength { max: 10 }),
        ],
        primary_key: 0,
        ancestors: vec![],
        mandatory_keys: vec![],
        discretionary_keys: vec![],
        indexes: vec![],
        foreign_keys: vec![],
    };
    Schema { tables: vec![users] }
}

#[test]
fn dynamic_read_of_text_columns() {
    let s = text_schema();
    assert!(s.is_well_formed());
    let u = Model { table: 0, values: vec![ival(1), Some(Value::Text("a")), None] };
    let name = DynColumn::of(&s, 0, 1);
    assert_eq!(name.kind, ValueKind::Text);
    match u.variadic_try_get_dynamic_column(&s, name) {
        Ok(v) => assert_eq!(v, Some(&Value::Text("a"))),
        Err(_) => panic!("the text column was refused"),
    }
    match u.variadic_try_get_dynamic_column(&s, DynColumn::of(&s, 0, 2)) {
        Ok(v) => assert_eq!(v, None),
        Err(_) => panic!("a null text column was refused"),
    }
    let as_integer = DynColumn { table: 0, column: 1, kind: ValueKind::Integer };
    assert!(u.variadic_try_get_dynamic_column(&s, as_integer).is_err());
}

#[test]
fn text_column_checks() {
    let s = text_schema();
    let name = &s.tables[0].columns[1];
    assert!(name.accepts(&Some(Value::Text(""))));
    assert!(!name.accepts(&None));
    assert!(!name.check_value(&Some(Value::Text(""))));
    assert!(name.check_value(&Some(Value::Text("é"))));
    let bio = &s.tables[0].columns[2];
    assert!(bio.check_value(&Some(Value::Text("0123456789"))));
    assert!(!bio.check_value(&Some(Value::Text("0123456789a"))));
    assert!(bio.check_value(&None));
}
