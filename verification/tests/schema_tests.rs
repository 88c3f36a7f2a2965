use diesel_builders::buildable::{BundlableTableExt, BuildableTable, NestedInnerJoin};
use diesel_builders::hierarchy::{
    AncestorOfIndex, BundlableTable, Descendant, DescendantOf, DescendantWithSelf, HasPrimaryKeyColumn,
    HorizontalSameAsGroup, HorizontalSameAsGroupExt, Root,
};
use diesel_builders::schema::{
    ColumnCheck, ColumnDef, ForeignKeyDef, HorizontalKeyDef, MaybeNullable, Schema, TableDef,
};
use diesel_builders::relations::{
    AncestorColumnOf, AncestorColumnsOf, NestedAncestorColumnsOf, DiscretionarySameAsIndex, ForeignKey, ForeignPrimaryKey, HorizontalNestedKeys,
    HorizontalSameAsColumns, HostColumn, MandatorySameAsIndex, NestedAncestorsOf, PrimaryKeyColumn,
};
use diesel_builders::value::{Value, ValueKind};

fn col(
    name: &'static str,
    kind: ValueKind,
    nullable: bool,
    default_value: Option<Option<Value>>,
    check: ColumnCheck,
) -> ColumnDef {
    ColumnDef { name, kind, nullable, default_value, check }
}

fn schema() -> Schema {
    let users = TableDef {
        name: "users",
        columns: vec![
            col("id", ValueKind::Integer, false, None, ColumnCheck::Unchecked),
            col("age", ValueKind::Integer, true, Some(None), ColumnCheck::Range { min: 0, max: 150 }),
            col("active", ValueKind::Boolean, false, Some(Some(Value::Boolean(true))), ColumnCheck::Unchecked),
        ],
        primary_key: 0,
        ancestors: vec![],
        mandatory_keys: vec![],
        discretionary_keys: vec![],
        indexes: vec![],
        foreign_keys: vec![],
    };
    let teams = TableDef {
        name: "teams",
        columns: vec![
            col("id", ValueKind::Integer, false, None, ColumnCheck::Unchecked),
            col("owner_age", ValueKind::Integer, true, Some(None), ColumnCheck::Range { min: 0, max: 99 }),
            col("score", ValueKind::Integer, false, Some(Some(Value::Integer(0))), ColumnCheck::Range { min: 0, max: 100 }),
        ],
        primary_key: 0,
        ancestors: vec![],
        mandatory_keys: vec![],
        discretionary_keys: vec![],
        indexes: vec![],
        foreign_keys: vec![],
    };
    let members = TableDef {
        name: "members",
        columns: vec![
            col("id", ValueKind::Integer, false, None, ColumnCheck::Unchecked),
            col("team_id", ValueKind::Integer, false, None, ColumnCheck::Unchecked),
            col("age", ValueKind::Integer, true, Some(None), ColumnCheck::Range { min: 0, max: 150 }),
            col("mentor_id", ValueKind::Integer, true, Some(None), ColumnCheck::Unchecked),
            col("level", ValueKind::Integer, false, None, ColumnCheck::Range { min: 1, max: 10 }),
        ],
        primary_key: 0,
        ancestors: vec![0],
        mandatory_keys: vec![HorizontalKeyDef {
            key_column: 1,
            referenced_table: 1,
            host_columns: vec![2],
            foreign_columns: vec![1],
        }],
        discretionary_keys: vec![HorizontalKeyDef {
            key_column: 3,
            referenced_table: 0,
            host_columns: vec![2],
            foreign_columns: vec![1],
        }],
        indexes: vec![],
        foreign_keys: vec![
            ForeignKeyDef { host_columns: vec![1], referenced_table: 1, referenced_columns: vec![0] },
            ForeignKeyDef { host_columns: vec![3], referenced_table: 0, referenced_columns: vec![0] },
            ForeignKeyDef { host_columns: vec![0], referenced_table: 0, referenced_columns: vec![0] },
        ],
    };
    Schema { tables: vec![users, teams, members] }
}

#[test]
fn well_formed_schema_is_accepted() {
    assert!(schema().is_well_formed());
}

#[test]
fn primary_key_outside_columns_is_refused() {
    let mut s = schema();
    s.tables[1].primary_key = 7;
    assert!(!s.is_well_formed());
}

#[test]
fn nullable_primary_key_is_refused() {
    let mut s = schema();
    s.tables[0].columns[0].nullable = true;
    assert!(!s.is_well_formed());
}

#[test]
fn ancestor_listed_after_table_is_refused() {
    let mut s = schema();
    s.tables[0].ancestors = vec![2];
    assert!(!s.is_well_formed());
}

#[test]
fn repeated_ancestor_is_refused() {
    let mut s = schema();
    s.tables[2].ancestors = vec![0, 0];
    assert!(!s.is_well_formed());
}

#[test]
fn default_of_wrong_kind_is_refused() {
    let mut s = schema();
    s.tables[1].columns[2].default_value = Some(Some(Value::Boolean(false)));
    assert!(!s.is_well_formed());
}

#[test]
fn key_pairing_columns_of_different_kinds_is_refused() {
    let mut s = schema();
    s.tables[2].mandatory_keys[0].foreign_columns = vec![2];
    assert!(s.tables[1].columns[2].kind == ValueKind::Integer);
    s.tables[2].discretionary_keys[0].foreign_columns = vec![2];
    assert!(!s.is_well_formed());
}

#[test]
fn empty_foreign_key_is_refused() {
    let mut s = schema();
    s.tables[2].foreign_keys.push(ForeignKeyDef {
        host_columns: vec![],
        referenced_table: 0,
        referenced_columns: vec![],
    });
    assert!(!s.is_well_formed());
}

#[test]
fn roots_and_ancestors() {
    let s = schema();
    assert!(s.is_root(0));
    assert!(!s.is_root(2));
    assert_eq!(s.root(2), 0);
    assert_eq!(s.root(1), 1);
    assert_eq!(s.ancestors(2), &vec![0]);
    assert!(s.is_descendant_of(2, 0));
    assert!(s.is_descendant_of(2, 2));
    assert!(!s.is_descendant_of(0, 2));
    assert!(!s.is_descendant_of(2, 1));
}

#[test]
fn ancestor_positions() {
    let s = schema();
    assert_eq!(s.ancestor_index(2, 0), Some(0));
    assert_eq!(s.ancestor_index(2, 2), Some(1));
    assert_eq!(s.ancestor_index(2, 1), None);
    assert_eq!(s.ancestors_with_self(2), vec![0, 2]);
    assert_eq!(s.ancestors_with_self(1), vec![1]);
    assert_eq!(s.primary_key_column(2), 0);
}

#[test]
fn triangular_columns_and_same_as_targets() {
    let s = schema();
    assert_eq!(s.mandatory_triangular_columns(2), vec![1]);
    assert_eq!(s.discretionary_triangular_columns(2), vec![3]);
    assert_eq!(s.mandatory_same_as_targets(2, 2), vec![Some(1)]);
    assert_eq!(s.discretionary_same_as_targets(2, 2), vec![Some(1)]);
    assert_eq!(s.mandatory_same_as_targets(2, 4), vec![None]);
    assert_eq!(s.mandatory_triangular_columns(0), Vec::<usize>::new());
}

#[test]
fn referenced_tables_and_primary_keys() {
    let s = schema();
    assert_eq!(s.mandatory_tables(2), vec![1]);
    assert_eq!(s.discretionary_tables(2), vec![0]);
    assert_eq!(s.mandatory_primary_keys(2), vec![0]);
    assert_eq!(s.discretionary_primary_keys(2), vec![0]);
}

#[test]
fn inner_join_pairs_tables_with_primary_keys() {
    let s = schema();
    assert_eq!(s.nested_inner_join(2), vec![(0, 0), (2, 0)]);
    assert_eq!(s.nested_inner_join(1), vec![(1, 0)]);
}

#[test]
fn new_builder_has_one_bundle_per_table_of_the_chain() {
    let s = schema();
    let b = s.builder(2);
    assert_eq!(b.table(), 2);
    assert_eq!(b.bundles.len(), 2);
    assert_eq!(b.bundles[0].table(), 0);
    assert_eq!(b.bundles[1].table(), 2);
    assert_eq!(s.default_bundles(2).len(), 2);
}

#[test]
fn nullable_column_conversion() {
    let s = schema();
    let c = s.tables[0].columns[0].maybe_nullable();
    assert!(c.nullable);
    assert_eq!(c.name, "id");
    assert_eq!(c.kind, ValueKind::Integer);
}

#[test]
fn column_checks() {
    let s = schema();
    let age = &s.tables[0].columns[1];
    assert!(age.accepts(&None));
    assert!(age.accepts(&Some(Value::Integer(3))));
    assert!(!age.accepts(&Some(Value::Boolean(true))));
    assert!(age.check_value(&Some(Value::Integer(150))));
    assert!(!age.check_value(&Some(Value::Integer(151))));
    assert!(age.check_value(&None));
}

#[test]
fn further_column_checks() {
    let at_least = col("n", ValueKind::Integer, true, None, ColumnCheck::AtLeast { min: 5 });
    assert!(at_least.check_value(&Some(Value::Integer(5))));
    assert!(!at_least.check_value(&Some(Value::Integer(4))));
    assert!(at_least.check_value(&None));
    let at_most = col("n", ValueKind::Integer, false, None, ColumnCheck::AtMost { max: -1 });
    assert!(at_most.check_value(&Some(Value::Integer(-1))));
    assert!(!at_most.check_value(&Some(Value::Integer(0))));
    let excludes = col("n", ValueKind::Integer, false, None, ColumnCheck::Excludes { value: 0 });
    assert!(!excludes.check_value(&Some(Value::Integer(0))));
    assert!(excludes.check_value(&Some(Value::Integer(1))));
    let requires = col("flag", ValueKind::Boolean, true, None, ColumnCheck::Requires { value: true });
    assert!(requires.check_value(&Some(Value::Boolean(true))));
    assert!(!requires.check_value(&Some(Value::Boolean(false))));
    assert!(requires.check_value(&None));
    assert!(requires.check_value(&Some(Value::Integer(0))));
    assert!(at_least.check_value(&Some(Value::Boolean(false))));
}

#[test]
fn key_positions_by_key_column() {
    let s = schema();
    assert_eq!(s.mandatory_same_as_index(2, 1), Some(0));
    assert_eq!(s.mandatory_same_as_index(2, 3), None);
    assert_eq!(s.discretionary_same_as_index(2, 3), Some(0));
    assert_eq!(s.discretionary_same_as_index(0, 3), None);
}

#[test]
fn primary_and_ancestor_columns() {
    let s = schema();
    assert!(s.is_primary_key_column(2, 0));
    assert!(!s.is_primary_key_column(2, 1));
    assert!(s.is_ancestor_column_of(2, 0, 1));
    assert!(s.is_ancestor_column_of(2, 2, 4));
    assert!(!s.is_ancestor_column_of(2, 1, 1));
    assert!(!s.is_ancestor_column_of(2, 0, 9));
    assert!(s.are_ancestor_columns_of(2, &vec![(0, 1), (2, 4)]));
    assert!(!s.are_ancestor_columns_of(2, &vec![(0, 1), (1, 0)]));
    assert!(s.are_ancestor_columns_of(0, &vec![]));
}

#[test]
fn foreign_primary_keys_and_host_columns() {
    let s = schema();
    assert_eq!(s.foreign_primary_key_table(2, 1), Some(1));
    assert_eq!(s.foreign_primary_key_table(2, 3), Some(0));
    assert_eq!(s.foreign_primary_key_table(2, 0), Some(0));
    assert_eq!(s.foreign_primary_key_table(2, 2), None);
    assert!(s.is_host_column(2, 3));
    assert!(!s.is_host_column(2, 4));
    assert!(!s.is_host_column(0, 0));
}

#[test]
fn ancestors_share_the_primary_key_kind() {
    let s = schema();
    let t = &s.tables[2];
    let a = t.ancestors[0];
    assert_eq!(s.tables[a].columns[s.tables[a].primary_key].kind, t.columns[t.primary_key].kind);
    let mut bad = schema();
    bad.tables[2].columns[0].kind = ValueKind::Boolean;
    bad.tables[2].foreign_keys.pop();
    assert!(!bad.is_well_formed());
}

#[test]
fn foreign_keys_between_tables() {
    let s = schema();
    assert!(s.has_foreign_key(2, &vec![1], 1, &vec![0]));
    assert!(s.has_foreign_key(2, &vec![3], 0, &vec![0]));
    assert!(!s.has_foreign_key(2, &vec![3], 1, &vec![0]));
    assert!(!s.has_foreign_key(2, &vec![1, 3], 1, &vec![0]));
    assert!(!s.has_foreign_key(0, &vec![0], 0, &vec![0]));
}

#[test]
fn same_as_columns_and_key_matrices() {
    let s = schema();
    let (host, foreign) = s.same_as_columns(2, true, 0);
    assert_eq!(host, &vec![2]);
    assert_eq!(foreign, &vec![1]);
    let (tables, hosts, foreigns) = s.nested_keys(2, false);
    assert_eq!(tables, vec![0]);
    assert_eq!(hosts, vec![vec![2]]);
    assert_eq!(foreigns, vec![vec![1]]);
    let (tables, hosts, foreigns) = s.nested_keys(0, true);
    assert!(tables.is_empty() && hosts.is_empty() && foreigns.is_empty());
}

#[test]
fn ancestors_of_a_table() {
    let s = schema();
    assert!(s.are_ancestors_of(2, &vec![0, 2, 0]));
    assert!(!s.are_ancestors_of(2, &vec![0, 1]));
    assert!(s.are_ancestors_of(1, &vec![]));
}

#[test]
fn foreign_columns_of_same_as_groups() {
    let s = schema();
    assert_eq!(s.mandatory_foreign_columns(2, 2), vec![(1, 1)]);
    assert_eq!(s.discretionary_foreign_columns(2, 2), vec![(0, 1)]);
    assert_eq!(s.mandatory_foreign_columns(2, 4), vec![]);
    assert_eq!(s.discretionary_foreign_columns(0, 1), vec![]);
}
