use diesel_builders::schema::{ColumnCheck, ColumnDef, ForeignKeyDef, HorizontalKeyDef, Schema, TableDef};
use diesel_builders::value::{Value, ValueKind};
use diesel_builders::builder_error::{
    BuilderError, BuilderResult, DynamicColumnError, IncompleteBuilderError, ValidationError,
};
use diesel_builders::get_set_columns::{
    flatten_groups, GetColumn, GetColumnExt, GetNestedColumns, InsertableTableModel, MayGetColumn,
    MayGetColumnExt, MayGetNestedColumns, MaySetColumns, MayValidateNestedColumns, SetHomogeneousNestedColumns,
    SetNestedColumns, TryMaySetNestedColumns, TrySetColumnsCollection, TrySetHomogeneousNestedColumns,
    TrySetHomogeneousNestedColumnsCollection, TrySetNestedColumns, ValidateNestedColumns,
};
use diesel_builders::model::{InsertableModel, Model};
use diesel_builders::nested_models::{complete_values, TupleEqAll, TupleGetNestedColumns, TupleMayGetNestedColumns};

fn col(
    name: &'static str,
    kind: ValueKind,
    nullable: bool,
    default_value: Option<Option<Value>>,
    check: ColumnCheck,
) -> ColumnDef {
    ColumnDef { name, kind, nullable, default_value, check }
}

fn schema() -> Schema {
    let users = TableDef {
        name: "users",
        columns: vec![
            col("id", ValueKind::Integer, false, None, ColumnCheck::Unchecked),
            col("age", ValueKind::Integer, true, Some(None), ColumnCheck::Range { min: 0, max: 150 }),
            col("active", ValueKind::Boolean, false, Some(Some(Value::Boolean(true))), ColumnCheck::Unchecked),
        ],
        primary_key: 0,
        ancestors: vec![],
        mandatory_keys: vec![],
        discretionary_keys: vec![],
        indexes: vec![],
        foreign_keys: vec![],
    };
    let teams = TableDef {
        name: "teams",
        columns: vec![
            col("id", ValueKind::Integer, false, None, ColumnCheck::Unchecked),
            col("owner_age", ValueKind::Integer, true, Some(None), ColumnCheck::Range { min: 0, max: 99 }),
            col("score", ValueKind::Integer, false, Some(Some(Value::Integer(0))), ColumnCheck::Range { min: 0, max: 100 }),
        ],
        primary_key: 0,
        ancestors: vec![],
        mandatory_keys: vec![],
        discretionary_keys: vec![],
        indexes: vec![],
        foreign_keys: vec![],
    };
    let members = TableDef {
        name: "members",
        columns: vec![
            col("id", ValueKind::Integer, false, None, ColumnCheck::Unchecked),
            col("team_id", ValueKind::Integer, false, None, ColumnCheck::Unchecked),
            col("age", ValueKind::Integer, true, Some(None), ColumnCheck::Range { min: 0, max: 150 }),
            col("mentor_id", ValueKind::Integer, true, Some(None), ColumnCheck::Unchecked),
            col("level", ValueKind::Integer, false, None, ColumnCheck::Range { min: 1, max: 10 }),
        ],
        primary_key: 0,
        ancestors: vec![0],
        mandatory_keys: vec![HorizontalKeyDef {
            key_column: 1,
            referenced_table: 1,
            host_columns: vec![2],
            foreign_columns: vec![1],
        }],
        discretionary_keys: vec![HorizontalKeyDef {
            key_column: 3,
            referenced_table: 0,
            host_columns: vec![2],
            foreign_columns: vec![1],
        }],
        indexes: vec![],
        foreign_keys: vec![
            ForeignKeyDef { host_columns: vec![1], referenced_table: 1, referenced_columns: vec![0] },
            ForeignKeyDef { host_columns: vec![3], referenced_table: 0, referenced_columns: vec![0] },
            ForeignKeyDef { host_columns: vec![0], referenced_table: 0, referenced_columns: vec![0] },
        ],
    };
    Schema { tables: vec![users, teams, members] }
}

fn ival(x: i64) -> Option<Value> {
    Some(Value::Integer(x))
}

#[test]
fn nested_reads_and_writes() {
    let s = schema();
    let mut nv = InsertableModel::default_values(&s, 2);
    assert_eq!(nv.table_index(), 2);
    nv.set_nested_columns(&s, &vec![0, 4, 0], &vec![ival(1), ival(2), ival(3)]);
    assert_eq!(nv.may_get_nested_columns(&vec![0, 4, 1]), vec![Some(ival(3)), Some(ival(2)), None]);
    nv.may_set_nested_columns(&s, &vec![1, 4], &vec![Some(ival(8)), None]);
    assert_eq!(nv.may_get_nested_columns(&vec![1, 4]), vec![Some(ival(8)), Some(ival(2))]);
    assert_eq!(nv.may_get_column_value(1), Some(ival(8)));
    match nv.may_get_column_ref(2) {
        Some(v) => assert_eq!(*v, None),
        None => panic!("a column with a default was unset"),
    }
}

#[test]
fn nested_validation() {
    let s = schema();
    let nv = InsertableModel::default_values(&s, 2);
    assert!(nv.validate_nested_columns(&s, &vec![4, 2], &vec![ival(3), ival(150)]).is_ok());
    assert_eq!(
        nv.validate_nested_columns(&s, &vec![4, 2, 4], &vec![ival(3), ival(151), ival(0)]),
        Err(ValidationError { table_name: "members", column_name: "age" })
    );
    assert_eq!(
        nv.may_validate_nested_columns(&s, &vec![2, 4], &vec![None, Some(ival(0))]),
        Err(ValidationError { table_name: "members", column_name: "level" })
    );
    assert!(nv.may_validate_nested_columns(&s, &vec![2, 4], &vec![None, None]).is_ok());
}

#[test]
fn fallible_nested_writes_keep_the_columns_before_the_refusal() {
    let s = schema();
    let mut nv = InsertableModel::default_values(&s, 2);
    let r = nv.try_set_nested_columns(&s, &vec![0, 4, 2], &vec![ival(1), ival(11), ival(5)]);
    assert_eq!(r, Err(ValidationError { table_name: "members", column_name: "level" }));
    assert_eq!(nv.values, vec![Some(ival(1)), None, Some(None), Some(None), None]);
    assert!(nv.try_set_nested_columns(&s, &vec![4], &vec![ival(10)]).is_ok());
    assert_eq!(nv.may_get_column(4), Some(ival(10)));
    let r = nv.try_may_set_nested_columns(&s, &vec![1, 2], &vec![Some(ival(4)), Some(ival(-2))]);
    assert_eq!(r, Err(ValidationError { table_name: "members", column_name: "age" }));
    assert_eq!(nv.may_get_column(1), Some(ival(4)));
    assert!(nv.try_may_set_nested_columns(&s, &vec![2], &vec![None]).is_ok());
    assert_eq!(nv.may_get_column(2), Some(None));
}

#[test]
fn column_groups_are_set_in_order() {
    let s = schema();
    let mut nv = InsertableModel::default_values(&s, 2);
    let groups = vec![(vec![0, 1], vec![ival(1), ival(2)]), (vec![4], vec![ival(3)])];
    assert_eq!(flatten_groups(&groups), (vec![0, 1, 4], vec![ival(1), ival(2), ival(3)]));
    assert!(nv.try_set_nested_columns_collection(&s, &groups).is_ok());
    assert_eq!(nv.may_get_nested_columns(&vec![0, 1, 4]), vec![Some(ival(1)), Some(ival(2)), Some(ival(3))]);
    let bad = vec![(vec![2], vec![ival(7)]), (vec![4], vec![ival(99)])];
    assert_eq!(
        nv.try_set_nested_columns_collection(&s, &bad),
        Err(ValidationError { table_name: "members", column_name: "level" })
    );
    assert_eq!(nv.may_get_column(2), Some(ival(7)));
}

#[test]
fn one_value_for_several_columns() {
    let s = schema();
    let mut nv = InsertableModel::default_values(&s, 2);
    nv.set_homogeneous_nested_columns(&s, &vec![0, 1], ival(6));
    assert_eq!(nv.may_get_nested_columns(&vec![0, 1]), vec![Some(ival(6)), Some(ival(6))]);
    nv.set_homogeneous_nested_columns(&s, &vec![0, 1], None);
    assert_eq!(nv.may_get_column(0), Some(ival(6)));
    let r = nv.try_set_homogeneous_nested_columns(&s, &vec![4, 2, 0], ival(100));
    assert_eq!(r, Err(ValidationError { table_name: "members", column_name: "level" }));
    assert_eq!(nv.may_get_column(2), Some(ival(100)));
    assert_eq!(nv.may_get_column(0), Some(ival(100)));
    assert_eq!(nv.may_get_column(4), None);
    assert!(nv.try_set_homogeneous_nested_columns(&s, &vec![4, 2], None).is_ok());
    let r = nv.try_set_homogeneous_nested_columns_collection(&s, &vec![vec![1], vec![2, 4]], ival(50));
    assert_eq!(r, Err(ValidationError { table_name: "members", column_name: "level" }));
    assert_eq!(nv.may_get_nested_columns(&vec![1, 2]), vec![Some(ival(50)), Some(ival(50))]);
    assert!(nv.try_set_homogeneous_nested_columns_collection(&s, &vec![vec![4]], ival(9)).is_ok());
    assert_eq!(nv.may_get_column(4), Some(ival(9)));
}

#[test]
fn record_reads() {
    let m = Model { table: 0, values: vec![ival(1), None, Some(Value::Boolean(false))] };
    assert_eq!(m.get_nested_columns(&vec![2, 0]), vec![Some(Value::Boolean(false)), ival(1)]);
    assert_eq!(*m.get_column_ref(1), None);
    assert_eq!(m.get_column_value(0), ival(1));
    let s = schema();
    assert!(m.conforms(&s));
    let bad = Model { table: 0, values: vec![None, None, Some(Value::Boolean(false))] };
    assert!(!bad.conforms(&s));
    let short = Model { table: 1, values: vec![ival(1)] };
    assert!(!short.conforms(&s));
}

#[test]
fn optional_record_reads() {
    let present: Option<Model> = Some(Model { table: 0, values: vec![ival(1), ival(2), None] });
    assert_eq!(present.may_get_column(1), Some(ival(2)));
    let absent: Option<Model> = None;
    assert_eq!(absent.may_get_column(1), None);
}

#[test]
fn tuple_reads_of_records() {
    let ms = vec![
        Model { table: 0, values: vec![ival(1), ival(2), None] },
        Model { table: 1, values: vec![ival(3), None, ival(0)] },
    ];
    assert_eq!(ms.tuple_get_nested_columns(&vec![1, 0]), vec![ival(2), ival(3)]);
    let opt = vec![Some(Model { table: 0, values: vec![ival(1), ival(2), None] }), None];
    assert_eq!(opt.tuple_may_get_nested_columns(&vec![0, 2]), vec![Some(ival(1)), None]);
}

#[test]
fn columns_paired_with_values() {
    let cols: Vec<usize> = vec![3, 1];
    assert_eq!(cols.eq_all(&vec![ival(5), None]), vec![(3, ival(5)), (1, None)]);
}

#[test]
fn completion_of_values() {
    let s = schema();
    let mut nv = InsertableModel::default_values(&s, 1);
    assert_eq!(
        complete_values(&s, &nv),
        Err(IncompleteBuilderError::MissingMandatoryField { table_name: "teams", field_name: "id" })
    );
    nv.set_column(0, ival(4));
    assert_eq!(complete_values(&s, &nv), Ok(vec![ival(4), None, ival(0)]));
    let mut members = InsertableModel::default_values(&s, 2);
    members.set_column(0, ival(1));
    members.set_column(1, ival(2));
    assert_eq!(
        complete_values(&s, &members),
        Err(IncompleteBuilderError::MissingMandatoryField { table_name: "members", field_name: "level" })
    );
}

#[test]
fn incomplete_error_information() {
    let e = IncompleteBuilderError::MissingMandatoryTriangularField { table_name: "members", field_name: "team_id" };
    assert_eq!(e.message(), "Missing mandatory triangular builder field");
    assert_eq!(e.details(), None);
    assert_eq!(e.hint(), None);
    assert_eq!(e.table_name(), Some("members"));
    assert_eq!(e.column_name(), Some("team_id"));
    assert_eq!(e.constraint_name(), None);
    assert_eq!(e.statement_position(), None);
    assert_eq!(e.to_text(), "Missing mandatory triangular builder field: `members.team_id`");
    let f = IncompleteBuilderError::MissingMandatoryField { table_name: "users", field_name: "id" };
    assert_eq!(f.message(), "Missing mandatory field");
    assert_eq!(f.to_text(), "Missing mandatory field: `users.id`");
    assert_eq!(f.table_name(), Some("users"));
    assert_eq!(f.column_name(), Some("id"));
}

#[test]
fn dynamic_error_text() {
    let e = DynamicColumnError::UnknownColumn { table_name: "users", column_name: "age" };
    assert_eq!(e.to_text(), "Unknown column: `users.age`");
    let v = DynamicColumnError::Validation(ValidationError { table_name: "members", column_name: "level" });
    assert_eq!(v.to_text(), "Validation error: `members.level`");
}

#[test]
fn validation_error_text() {
    let e = ValidationError { table_name: "members", column_name: "level" };
    assert_eq!(e.to_text(), "`members.level`");
    assert_eq!(e.message(), "Value refused by the column's validation rule");
}

#[test]
fn builder_error_conversions() {
    let e = IncompleteBuilderError::MissingMandatoryField { table_name: "users", field_name: "id" };
    let b: BuilderError<ValidationError> = BuilderError::from(e);
    assert!(matches!(b, BuilderError::Incomplete(i) if i == e));
    let d: BuilderError<ValidationError> = BuilderError::from(diesel::result::Error::NotFound);
    assert!(matches!(d, BuilderError::Diesel(diesel::result::Error::NotFound)));
    let r: BuilderResult<u8, ValidationError> = Err(BuilderError::Validation(ValidationError {
        table_name: "t",
        column_name: "c",
    }));
    assert!(r.is_err());
}

#[test]
fn insertable_values_conformance() {
    let s = schema();
    let nv = InsertableModel::default_values(&s, 2);
    assert!(nv.conforms(&s));
    let mut wrong = InsertableModel::default_values(&s, 2);
    wrong.set_column(4, Some(Value::Boolean(true)));
    assert!(!wrong.conforms(&s));
    let short = InsertableModel { table: 2, values: vec![None] };
    assert!(!short.conforms(&s));
    let unknown = InsertableModel { table: 9, values: vec![] };
    assert!(!unknown.conforms(&s));
}

#[test]
fn builder_error_text() {
    let d: BuilderError<ValidationError> = BuilderError::Diesel(diesel::result::Error::NotFound);
    assert_eq!(d.to_text(), "Diesel error: Record not found");
    let i: BuilderError<ValidationError> =
        BuilderError::Incomplete(IncompleteBuilderError::MissingMandatoryField { table_name: "users", field_name: "id" });
    assert_eq!(i.to_text(), "Missing mandatory field: `users.id`");
    let v: BuilderError<ValidationError> =
        BuilderError::Validation(ValidationError { table_name: "members", column_name: "level" });
    assert_eq!(v.to_text(), "Validation error: `members.level`");
    assert_eq!(
        diesel_builders::builder_error::diesel_error_description(&diesel::result::Error::AlreadyInTransaction),
        "Diesel error: Cannot perform this operation while a transaction is open"
    );
}
