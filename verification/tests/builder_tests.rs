use diesel_builders::schema::{ColumnCheck, ColumnDef, ForeignKeyDef, HorizontalKeyDef, Schema, TableDef};
use diesel_builders::value::{Value, ValueKind};
use diesel_builders::buildable::BuildableTable;
use diesel_builders::builder_bundle::{
    SetDiscretionarySameAsNestedColumns, SetMandatorySameAsNestedColumns, TableBuilder, TableBuilderBundle,
    TrySetDiscretionarySameAsNestedColumns, TrySetMandatorySameAsNestedColumns,
};
use diesel_builders::builder_error::{IncompleteBuilderError, ValidationError};
use diesel_builders::completed_bundle::{CompletedTableBuilderBundle, TryMaySetDiscretionarySameAsNestedColumns};
use diesel_builders::model::InsertableModel;

fn col(
    name: &'static str,
    kind: ValueKind,
    nullable: bool,
    default_value: Option<Option<Value>>,
    check: ColumnCheck,
) -> ColumnDef {
    ColumnDef { name, kind, nullable, default_value, check }
}

fn schema() -> Schema {
    let users = TableDef {
        name: "users",
        columns: vec![
            col("id", ValueKind::Integer, false, None, ColumnCheck::Unchecked),
            col("age", ValueKind::Integer, true, Some(None), ColumnCheck::Range { min: 0, max: 150 }),
            col("active", ValueKind::Boolean, false, Some(Some(Value::Boolean(true))), ColumnCheck::Unchecked),
        ],
        primary_key: 0,
        ancestors: vec![],
        mandatory_keys: vec![],
        discretionary_keys: vec![],
        indexes: vec![],
        foreign_keys: vec![],
    };
    let teams = TableDef {
        name: "teams",
        columns: vec![
            col("id", ValueKind::Integer, false, None, ColumnCheck::Unchecked),
            col("owner_age", ValueKind::Integer, true, Some(None), ColumnCheck::Range { min: 0, max: 99 }),
            col("score", ValueKind::Integer, false, Some(Some(Value::Integer(0))), ColumnCheck::Range { min: 0, max: 100 }),
        ],
        primary_key: 0,
        ancestors: vec![],
        mandatory_keys: vec![],
        discretionary_keys: vec![],
        indexes: vec![],
        foreign_keys: vec![],
    };
    let members = TableDef {
        name: "members",
        columns: vec![
            col("id", ValueKind::Integer, false, None, ColumnCheck::Unchecked),
            col("team_id", ValueKind::Integer, false, None, ColumnCheck::Unchecked),
            col("age", ValueKind::Integer, true, Some(None), ColumnCheck::Range { min: 0, max: 150 }),
            col("mentor_id", ValueKind::Integer, true, Some(None), ColumnCheck::Unchecked),
            col("level", ValueKind::Integer, false, None, ColumnCheck::Range { min: 1, max: 10 }),
        ],
        primary_key: 0,
        ancestors: vec![0],
        mandatory_keys: vec![HorizontalKeyDef {
            key_column: 1,
            referenced_table: 1,
            host_columns: vec![2],
            foreign_columns: vec![1],
        }],
        discretionary_keys: vec![HorizontalKeyDef {
            key_column: 3,
            referenced_table: 0,
            host_columns: vec![2],
            foreign_columns: vec![1],
        }],
        indexes: vec![],
        foreign_keys: vec![
            ForeignKeyDef { host_columns: vec![1], referenced_table: 1, referenced_columns: vec![0] },
            ForeignKeyDef { host_columns: vec![3], referenced_table: 0, referenced_columns: vec![0] },
            ForeignKeyDef { host_columns: vec![0], referenced_table: 0, referenced_columns: vec![0] },
        ],
    };
    Schema { tables: vec![users, teams, members] }
}

fn ival(x: i64) -> Option<Value> {
    Some(Value::Integer(x))
}

fn team_builder(s: &Schema) -> TableBuilder {
    let mut t = s.builder(1);
    t.try_set_column(s, 1, 0, ival(7)).unwrap();
    t
}

fn mentor_builder(s: &Schema) -> TableBuilder {
    let mut m = s.builder(0);
    m.try_set_column(s, 0, 0, ival(3)).unwrap();
    m
}

#[test]
fn new_builder_reads_defaults() {
    let s = schema();
    let b = s.builder(2);
    assert_eq!(b.may_get_column(&s, 0, 2), Some(Some(Value::Boolean(true))));
    assert_eq!(b.may_get_column(&s, 0, 1), Some(None));
    assert_eq!(b.may_get_column(&s, 0, 0), None);
    assert_eq!(b.may_get_column(&s, 2, 4), None);
    assert_eq!(b.may_get_column(&s, 2, 3), Some(None));
}

#[test]
fn set_value_is_read_back() {
    let s = schema();
    let mut b = s.builder(2);
    assert!(b.try_set_column(&s, 2, 4, ival(5)).is_ok());
    assert_eq!(b.may_get_column(&s, 2, 4), Some(ival(5)));
    assert!(b.try_set_column(&s, 0, 1, ival(40)).is_ok());
    assert_eq!(b.may_get_column(&s, 0, 1), Some(ival(40)));
    assert_eq!(b.may_get_column(&s, 2, 2), Some(None));
}

#[test]
fn refused_value_leaves_builder_unchanged() {
    let s = schema();
    let mut b = s.builder(2);
    b.try_set_column(&s, 2, 4, ival(5)).unwrap();
    let r = b.try_set_column(&s, 2, 4, ival(11));
    assert_eq!(r, Err(ValidationError { table_name: "members", column_name: "level" }));
    assert_eq!(b.may_get_column(&s, 2, 4), Some(ival(5)));
    let r = b.try_set_column(&s, 0, 1, ival(-1));
    assert_eq!(r, Err(ValidationError { table_name: "users", column_name: "age" }));
    assert_eq!(b.may_get_column(&s, 0, 1), Some(None));
}

#[test]
fn value_reaches_the_builders_of_same_as_keys() {
    let s = schema();
    let mut b = s.builder(2);
    b.bundles[1].set_mandatory_builder(&s, 0, team_builder(&s));
    b.bundles[1].set_discretionary_builder(&s, 0, mentor_builder(&s));
    assert!(b.try_set_column(&s, 2, 2, ival(30)).is_ok());
    assert_eq!(b.may_get_column(&s, 2, 2), Some(ival(30)));
    let team = b.bundles[1].nested_mandatory_associated_builders[0].as_ref().unwrap();
    assert_eq!(team.may_get_column(&s, 1, 1), Some(ival(30)));
    let mentor = b.bundles[1].nested_discretionary_associated_builders[0].as_ref().unwrap();
    assert_eq!(mentor.may_get_column(&s, 0, 1), Some(ival(30)));
}

#[test]
fn null_is_stored_but_not_passed_on() {
    let s = schema();
    let mut b = s.builder(2);
    b.bundles[1].set_mandatory_builder(&s, 0, team_builder(&s));
    assert!(b.try_set_column(&s, 2, 2, ival(20)).is_ok());
    assert!(b.try_set_column(&s, 2, 2, None).is_ok());
    assert_eq!(b.may_get_column(&s, 2, 2), Some(None));
    let team = b.bundles[1].nested_mandatory_associated_builders[0].as_ref().unwrap();
    assert_eq!(team.may_get_column(&s, 1, 1), Some(ival(20)));
}

#[test]
fn refusal_by_an_associated_builder() {
    let s = schema();
    let mut b = s.builder(2);
    b.bundles[1].set_mandatory_builder(&s, 0, team_builder(&s));
    b.bundles[1].set_discretionary_builder(&s, 0, mentor_builder(&s));
    let r = b.try_set_column(&s, 2, 2, ival(120));
    assert_eq!(r, Err(ValidationError { table_name: "teams", column_name: "owner_age" }));
    assert_eq!(b.may_get_column(&s, 2, 2), Some(None));
    let mentor = b.bundles[1].nested_discretionary_associated_builders[0].as_ref().unwrap();
    assert_eq!(mentor.may_get_column(&s, 0, 1), Some(ival(120)));
    let team = b.bundles[1].nested_mandatory_associated_builders[0].as_ref().unwrap();
    assert_eq!(team.may_get_column(&s, 1, 1), Some(None));
}

#[test]
fn same_as_traits_pass_values_on() {
    let s = schema();
    let mut bundle = TableBuilderBundle::new(&s, 2);
    bundle.set_mandatory_builder(&s, 0, team_builder(&s));
    bundle.set_discretionary_builder(&s, 0, mentor_builder(&s));
    assert!(bundle.try_set_discretionary_same_as_nested_columns(&s, 2, ival(44)).is_ok());
    let mentor = bundle.nested_discretionary_associated_builders[0].as_ref().unwrap();
    assert_eq!(mentor.may_get_column(&s, 0, 1), Some(ival(44)));
    let team = bundle.nested_mandatory_associated_builders[0].as_ref().unwrap();
    assert_eq!(team.may_get_column(&s, 1, 1), Some(None));
    assert!(bundle.try_set_mandatory_same_as_nested_columns(&s, 2, ival(45)).is_ok());
    let team = bundle.nested_mandatory_associated_builders[0].as_ref().unwrap();
    assert_eq!(team.may_get_column(&s, 1, 1), Some(ival(45)));
    bundle.set_mandatory_same_as_nested_columns(&s, 2, ival(46));
    bundle.set_discretionary_same_as_nested_columns(&s, 2, ival(47));
    let team = bundle.nested_mandatory_associated_builders[0].as_ref().unwrap();
    assert_eq!(team.may_get_column(&s, 1, 1), Some(ival(46)));
    let mentor = bundle.nested_discretionary_associated_builders[0].as_ref().unwrap();
    assert_eq!(mentor.may_get_column(&s, 0, 1), Some(ival(47)));
    assert_eq!(bundle.insertable_model.may_get_column(2), Some(None));
    let r = bundle.try_set_mandatory_same_as_nested_columns(&s, 2, ival(100));
    assert_eq!(r, Err(ValidationError { table_name: "teams", column_name: "owner_age" }));
}

#[test]
fn bundle_validation_in_context() {
    let s = schema();
    let bundle = TableBuilderBundle::new(&s, 2);
    assert!(bundle.validate_column_in_context(&s, 4, &ival(3)).is_ok());
    assert_eq!(
        bundle.validate_column_in_context(&s, 4, &ival(0)),
        Err(ValidationError { table_name: "members", column_name: "level" })
    );
    assert!(bundle.validate_column_in_context(&s, 2, &None).is_ok());
}

#[test]
fn try_set_builders_never_fail() {
    let s = schema();
    let mut bundle = TableBuilderBundle::new(&s, 2);
    assert!(bundle.try_set_mandatory_builder(&s, 0, team_builder(&s)).is_ok());
    assert!(bundle.try_set_discretionary_builder(&s, 0, mentor_builder(&s)).is_ok());
    assert!(bundle.nested_mandatory_associated_builders[0].is_some());
    assert!(bundle.nested_discretionary_associated_builders[0].is_some());
}

#[test]
fn completion_requires_every_mandatory_builder() {
    let s = schema();
    let bundle = TableBuilderBundle::new(&s, 2);
    match CompletedTableBuilderBundle::try_from(&s, bundle) {
        Err(e) => assert_eq!(
            e,
            IncompleteBuilderError::MissingMandatoryTriangularField { table_name: "members", field_name: "team_id" }
        ),
        Ok(_) => panic!("a bundle without its mandatory builder was completed"),
    }
    let mut bundle = TableBuilderBundle::new(&s, 2);
    bundle.set_mandatory_builder(&s, 0, team_builder(&s));
    let completed = CompletedTableBuilderBundle::try_from(&s, bundle);
    assert!(completed.is_ok());
    let completed = completed.ok().unwrap();
    assert_eq!(completed.table(), 2);
    assert_eq!(completed.nested_mandatory_associated_builders.len(), 1);
}

#[test]
fn completed_bundle_passes_null_on() {
    let s = schema();
    let mut bundle = TableBuilderBundle::new(&s, 2);
    bundle.set_mandatory_builder(&s, 0, team_builder(&s));
    bundle.set_discretionary_builder(&s, 0, mentor_builder(&s));
    let mut completed = CompletedTableBuilderBundle::try_from(&s, bundle).ok().unwrap();
    assert!(completed.try_set_column(&s, 2, ival(33)).is_ok());
    assert_eq!(completed.nested_mandatory_associated_builders[0].may_get_column(&s, 1, 1), Some(ival(33)));
    assert!(completed.try_set_column(&s, 2, None).is_ok());
    assert_eq!(completed.nested_mandatory_associated_builders[0].may_get_column(&s, 1, 1), Some(None));
    let mentor = completed.nested_discretionary_associated_builders[0].as_ref().unwrap();
    assert_eq!(mentor.may_get_column(&s, 0, 1), Some(None));
    assert_eq!(completed.insertable_model.may_get_column(2), Some(None));
    assert!(completed.validate_column_in_context(&s, 4, &ival(4)).is_ok());
    let r = completed.try_set_column(&s, 4, ival(12));
    assert_eq!(r, Err(ValidationError { table_name: "members", column_name: "level" }));
}

#[test]
fn completed_bundle_may_set_discretionary() {
    let s = schema();
    let mut bundle = TableBuilderBundle::new(&s, 2);
    bundle.set_mandatory_builder(&s, 0, team_builder(&s));
    bundle.set_discretionary_builder(&s, 0, mentor_builder(&s));
    let mut completed = CompletedTableBuilderBundle::try_from(&s, bundle).ok().unwrap();
    assert!(completed.try_may_set_discretionary_same_as_nested_columns(&s, 2, ival(61)).is_ok());
    let mentor = completed.nested_discretionary_associated_builders[0].as_ref().unwrap();
    assert_eq!(mentor.may_get_column(&s, 0, 1), Some(ival(61)));
    assert!(completed.try_may_set_discretionary_same_as_nested_columns(&s, 2, None).is_ok());
    let mentor = completed.nested_discretionary_associated_builders[0].as_ref().unwrap();
    assert_eq!(mentor.may_get_column(&s, 0, 1), Some(None));
    assert_eq!(completed.nested_mandatory_associated_builders[0].may_get_column(&s, 1, 1), Some(None));
}

#[test]
fn builder_conformance() {
    let s = schema();
    let b = s.builder(2);
    assert!(b.conforms(&s));
    let mut bad = s.builder(2);
    bad.bundles.pop();
    assert!(!bad.conforms(&s));
    let mut wrong = s.builder(2);
    wrong.bundles[1].set_mandatory_builder(&s, 0, team_builder(&s));
    wrong.bundles[1].nested_mandatory_associated_builders[0] = Some(mentor_builder(&s));
    assert!(!wrong.conforms(&s));
}

#[test]
fn insertable_model_set_and_refusal() {
    let s = schema();
    let mut nv = InsertableModel::new(&s, 2);
    assert_eq!(nv.values, vec![None, None, Some(None), Some(None), None]);
    assert!(nv.try_set_column(&s, 4, ival(2)).is_ok());
    assert_eq!(nv.may_get_column(4), Some(ival(2)));
    let r = nv.try_set_column(&s, 4, ival(20));
    assert_eq!(r, Err(ValidationError { table_name: "members", column_name: "level" }));
    assert_eq!(nv.may_get_column(4), Some(ival(2)));
    nv.set_column(0, ival(9));
    assert_eq!(nv.may_get_column(0), Some(ival(9)));
}

#[test]
fn setting_a_column_changes_nothing_else() {
    let s = schema();
    let mut b = s.builder(2);
    b.try_set_column(&s, 0, 1, ival(18)).unwrap();
    b.try_set_column(&s, 2, 4, ival(2)).unwrap();
    assert!(b.try_set_column(&s, 2, 2, ival(19)).is_ok());
    assert_eq!(b.may_get_column(&s, 0, 1), Some(ival(18)));
    assert_eq!(b.may_get_column(&s, 0, 2), Some(Some(Value::Boolean(true))));
    assert_eq!(b.may_get_column(&s, 2, 4), Some(ival(2)));
    assert_eq!(b.may_get_column(&s, 2, 3), Some(None));
    assert!(b.try_set_column(&s, 2, 2, ival(500)).is_err());
    assert_eq!(b.may_get_column(&s, 2, 2), Some(ival(19)));
    assert_eq!(b.may_get_column(&s, 0, 1), Some(ival(18)));
}

#[test]
fn text_columns_in_a_builder() {
    let authors = TableDef {
        name: "authors",
        columns: vec![
            col("id", ValueKind::Integer, false, None, ColumnCheck::Unchecked),
            col("name", ValueKind::Text, false, None, ColumnCheck::NonEmpty),
            col("bio", ValueKind::Text, true, Some(None), ColumnCheck::MaxLength { max: 3 }),
        ],
        primary_key: 0,
        ancestors: vec![],
        mandatory_keys: vec![],
        discretionary_keys: vec![],
        indexes: vec![],
        foreign_keys: vec![],
    };
    let s = Schema { tables: vec![authors] };
    assert!(s.is_well_formed());
    let mut b = s.builder(0);
    assert_eq!(
        b.try_set_column(&s, 0, 1, Some(Value::Text(""))),
        Err(ValidationError { table_name: "authors", column_name: "name" })
    );
    assert_eq!(
        b.try_set_column(&s, 0, 2, Some(Value::Text("long"))),
        Err(ValidationError { table_name: "authors", column_name: "bio" })
    );
    assert!(b.try_set_column(&s, 0, 1, Some(Value::Text("a"))).is_ok());
    assert!(b.try_set_column(&s, 0, 2, Some(Value::Text("abc"))).is_ok());
    assert_eq!(b.bundles[0].insertable_model.values[1], Some(Some(Value::Text("a"))));
    assert_eq!(b.bundles[0].insertable_model.values[2], Some(Some(Value::Text("abc"))));
}

#[test]
fn copies_of_builders_and_bundles() {
    let s = schema();
    let mut b = s.builder(2);
    b.try_set_column(&s, 2, 4, ival(5)).unwrap();
    b.try_set_column(&s, 0, 1, ival(40)).unwrap();
    let c = b.clone();
    assert_eq!(c, b);
    let bundle = b.bundles[1].clone();
    assert_eq!(bundle, b.bundles[1]);
    let mut with_key = TableBuilderBundle::new(&s, 2);
    with_key.set_mandatory_builder(&s, 0, team_builder(&s));
    let copy = with_key.clone();
    assert_eq!(copy, with_key);
    let completed = CompletedTableBuilderBundle::try_from(&s, with_key).ok().unwrap();
    assert_eq!(completed.clone(), completed);
}
