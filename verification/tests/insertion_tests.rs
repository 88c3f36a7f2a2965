use diesel_builders::schema::{ColumnCheck, ColumnDef, ForeignKeyDef, HorizontalKeyDef, Schema, TableDef};
use diesel_builders::value::{Value, ValueKind};
use diesel_builders::buildable::BuildableTable;
use diesel_builders::builder_bundle::{TableBuilder, TableBuilderBundle};
use diesel_builders::builder_error::{BuilderError, ValidationError};
use diesel_builders::completed_bundle::CompletedTableBuilderBundle;
use diesel_builders::insertion::{
    all_columns, referenced_primary_keys, BuilderInsertion, BuilderStep, BundleInsertion, InsertionAction,
    InsertionStage,
};
use diesel_builders::model::Model;

fn col(
    name: &'static str,
    kind: ValueKind,
    nullable: bool,
    default_value: Option<Option<Value>>,
    check: ColumnCheck,
) -> ColumnDef {
    ColumnDef { name, kind, nullable, default_value, check }
}

fn schema() -> Schema {
    let users = TableDef {
        name: "users",
        columns: vec![
            col("id", ValueKind::Integer, false, None, ColumnCheck::Unchecked),
            col("age", ValueKind::Integer, true, Some(None), ColumnCheck::Range { min: 0, max: 150 }),
            col("active", ValueKind::Boolean, false, Some(Some(Value::Boolean(true))), ColumnCheck::Unchecked),
        ],
        primary_key: 0,
        ancestors: vec![],
        mandatory_keys: vec![],
        discretionary_keys: vec![],
        indexes: vec![],
        foreign_keys: vec![],
    };
    let teams = TableDef {
        name: "teams",
        columns: vec![
            col("id", ValueKind::Integer, false, None, ColumnCheck::Unchecked),
            col("owner_age", ValueKind::Integer, true, Some(None), ColumnCheck::Range { min: 0, max: 99 }),
            col("score", ValueKind::Integer, false, Some(Some(Value::Integer(0))), ColumnCheck::Range { min: 0, max: 100 }),
        ],
        primary_key: 0,
        ancestors: vec![],
        mandatory_keys: vec![],
        discretionary_keys: vec![],
        indexes: vec![],
        foreign_keys: vec![],
    };
    let members = TableDef {
        name: "members",
        columns: vec![
            col("id", ValueKind::Integer, false, None, ColumnCheck::Unchecked),
            col("team_id", ValueKind::Integer, false, None, ColumnCheck::Unchecked),
            col("age", ValueKind::Integer, true, Some(None), ColumnCheck::Range { min: 0, max: 150 }),
            col("mentor_id", ValueKind::Integer, true, Some(None), ColumnCheck::Unchecked),
            col("level", ValueKind::Integer, false, None, ColumnCheck::Range { min: 1, max: 10 }),
        ],
        primary_key: 0,
        ancestors: vec![0],
        mandatory_keys: vec![HorizontalKeyDef {
            key_column: 1,
            referenced_table: 1,
            host_columns: vec![2],
            foreign_columns: vec![1],
        }],
        discretionary_keys: vec![HorizontalKeyDef {
            key_column: 3,
            referenced_table: 0,
            host_columns: vec![2],
            foreign_columns: vec![1],
        }],
        indexes: vec![],
        foreign_keys: vec![
            ForeignKeyDef { host_columns: vec![1], referenced_table: 1, referenced_columns: vec![0] },
            ForeignKeyDef { host_columns: vec![3], referenced_table: 0, referenced_columns: vec![0] },
            ForeignKeyDef { host_columns: vec![0], referenced_table: 0, referenced_columns: vec![0] },
        ],
    };
    Schema { tables: vec![users, teams, members] }
}

fn ival(x: i64) -> Option<Value> {
    Some(Value::Integer(x))
}

/// A table store that returns each inserted row as its record.
struct Store {
    rows: Vec<Model>,
}

impl Store {
    fn insert(&mut self, table: usize, values: Vec<(usize, Option<Value>)>) -> Model {
        let m = Model { table, values: values.iter().map(|(_, v)| *v).collect() };
        self.rows.push(Model { table, values: m.values.clone() });
        m
    }
}

fn describe(e: &BuilderError<ValidationError>) -> String {
    match e {
        BuilderError::Diesel(_) => "database".to_string(),
        BuilderError::Incomplete(i) => i.to_text(),
        BuilderError::Validation(v) => format!("{}.{}", v.table_name, v.column_name),
    }
}

fn insert_builder(s: &Schema, builder: TableBuilder, store: &mut Store) -> Result<Model, String> {
    let mut insertion = BuilderInsertion::start(s, builder);
    let mut previous: Option<Model> = None;
    loop {
        match insertion.next(s, previous.take()) {
            BuilderStep::Done(m) => return Ok(m),
            BuilderStep::Failed(e) => return Err(describe(&e)),
            BuilderStep::Bundle(mut bundle) => {
                let mut reply: Option<Model> = None;
                loop {
                    match bundle.step(s, reply.take()) {
                        InsertionAction::InsertBuilder(b) => reply = Some(insert_builder(s, b, store)?),
                        InsertionAction::InsertRow { table, values } => reply = Some(store.insert(table, values)),
                        InsertionAction::Done(m) => {
                            previous = Some(m);
                            break;
                        }
                        InsertionAction::Failed(e) => return Err(describe(&e)),
                    }
                }
            }
        }
    }
}

fn team_builder(s: &Schema) -> TableBuilder {
    let mut t = s.builder(1);
    t.try_set_column(s, 1, 0, ival(7)).unwrap();
    t
}

#[test]
fn root_builder_is_inserted_as_one_row() {
    let s = schema();
    let mut b = s.builder(0);
    b.try_set_column(&s, 0, 0, ival(1)).unwrap();
    b.try_set_column(&s, 0, 1, ival(30)).unwrap();
    let mut store = Store { rows: vec![] };
    let m = insert_builder(&s, b, &mut store).unwrap();
    assert_eq!(m.table, 0);
    assert_eq!(m.values, vec![ival(1), ival(30), Some(Value::Boolean(true))]);
    assert_eq!(store.rows.len(), 1);
}

#[test]
fn descendant_takes_the_primary_key_of_its_ancestor() {
    let s = schema();
    let mut b = s.builder(2);
    b.try_set_column(&s, 0, 0, ival(5)).unwrap();
    b.try_set_column(&s, 2, 4, ival(3)).unwrap();
    b.bundles[1].set_mandatory_builder(&s, 0, team_builder(&s));
    b.try_set_column(&s, 2, 2, ival(25)).unwrap();
    let mut store = Store { rows: vec![] };
    let m = insert_builder(&s, b, &mut store).unwrap();
    assert_eq!(m.table, 2);
    assert_eq!(m.values, vec![ival(5), ival(7), ival(25), None, ival(3)]);
    assert_eq!(store.rows.len(), 3);
    assert_eq!(store.rows[0].table, 0);
    assert_eq!(store.rows[1].table, 1);
    assert_eq!(store.rows[1].values, vec![ival(7), ival(25), ival(0)]);
    assert_eq!(store.rows[2].table, 2);
}

#[test]
fn discretionary_builder_is_inserted_and_referenced() {
    let s = schema();
    let mut b = s.builder(2);
    b.try_set_column(&s, 0, 0, ival(5)).unwrap();
    b.try_set_column(&s, 2, 4, ival(3)).unwrap();
    b.bundles[1].set_mandatory_builder(&s, 0, team_builder(&s));
    let mut mentor = s.builder(0);
    mentor.try_set_column(&s, 0, 0, ival(9)).unwrap();
    b.bundles[1].set_discretionary_builder(&s, 0, mentor);
    let mut store = Store { rows: vec![] };
    let m = insert_builder(&s, b, &mut store).unwrap();
    assert_eq!(m.values, vec![ival(5), ival(7), None, ival(9), ival(3)]);
    assert_eq!(store.rows.len(), 4);
}

#[test]
fn missing_mandatory_builder_stops_the_insertion() {
    let s = schema();
    let mut b = s.builder(2);
    b.try_set_column(&s, 0, 0, ival(5)).unwrap();
    b.try_set_column(&s, 2, 4, ival(3)).unwrap();
    let mut store = Store { rows: vec![] };
    let r = insert_builder(&s, b, &mut store);
    assert_eq!(r.err(), Some("Missing mandatory triangular builder field: `members.team_id`".to_string()));
    assert_eq!(store.rows.len(), 1);
}

#[test]
fn missing_field_stops_the_insertion() {
    let s = schema();
    let mut b = s.builder(2);
    b.try_set_column(&s, 0, 0, ival(5)).unwrap();
    b.bundles[1].set_mandatory_builder(&s, 0, team_builder(&s));
    let mut store = Store { rows: vec![] };
    let r = insert_builder(&s, b, &mut store);
    assert_eq!(r.err(), Some("Missing mandatory field: `members.level`".to_string()));
    assert_eq!(store.rows.len(), 2);
}

#[test]
fn missing_root_primary_key_stops_the_insertion() {
    let s = schema();
    let b = s.builder(0);
    let mut store = Store { rows: vec![] };
    let r = insert_builder(&s, b, &mut store);
    assert_eq!(r.err(), Some("Missing mandatory field: `users.id`".to_string()));
    assert!(store.rows.is_empty());
}

#[test]
fn key_value_refused_by_the_column_rule() {
    let mut s = schema();
    s.tables[2].columns[1].check = ColumnCheck::Range { min: 100, max: 200 };
    let mut b = s.builder(2);
    b.try_set_column(&s, 0, 0, ival(5)).unwrap();
    b.try_set_column(&s, 2, 4, ival(3)).unwrap();
    b.bundles[1].set_mandatory_builder(&s, 0, team_builder(&s));
    let mut store = Store { rows: vec![] };
    let r = insert_builder(&s, b, &mut store);
    assert_eq!(r.err(), Some("members.team_id".to_string()));
}

#[test]
fn helpers_of_the_insertion() {
    let s = schema();
    let keys = &s.tables[2].mandatory_keys;
    assert_eq!(referenced_primary_keys(&s, keys), vec![0]);
    assert_eq!(all_columns(3), vec![0, 1, 2]);
}

#[test]
fn bundle_insertion_steps() {
    let s = schema();
    let mut bundle = TableBuilderBundle::new(&s, 2);
    bundle.set_mandatory_builder(&s, 0, team_builder(&s));
    bundle.try_set_column(&s, 0, ival(5)).unwrap();
    bundle.try_set_column(&s, 4, ival(2)).unwrap();
    let completed = CompletedTableBuilderBundle::try_from(&s, bundle).ok().unwrap();
    let mut ins = BundleInsertion::start(&s, completed);
    assert!(ins.stage == InsertionStage::Mandatory);
    match ins.step(&s, None) {
        InsertionAction::InsertBuilder(b) => assert_eq!(b.table, 1),
        _ => panic!("expected the team builder"),
    }
    let team = Model { table: 1, values: vec![ival(8), None, ival(0)] };
    match ins.step(&s, Some(team)) {
        InsertionAction::InsertRow { table, values } => {
            assert_eq!(table, 2);
            assert_eq!(values, vec![(0, ival(5)), (1, ival(8)), (2, None), (3, None), (4, ival(2))]);
        }
        _ => panic!("expected the row"),
    }
    let row = Model { table: 2, values: vec![ival(5), ival(8), None, None, ival(2)] };
    match ins.step(&s, Some(row)) {
        InsertionAction::Done(m) => assert_eq!(m.values[1], ival(8)),
        _ => panic!("expected the end"),
    }
    assert!(ins.stage == InsertionStage::Finished);
}
