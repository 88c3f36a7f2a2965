use diesel_builders::indexes::{
    IndexedColumn, NestedForeignKeyTail, NestedTableIndexTail, NestedUniqueTableIndexTail, TableIndex,
    UniqueTableIndex, UniquelyIndexedColumn,
};
use diesel_builders::schema::{ColumnCheck, ColumnDef, ForeignKeyDef, IndexDef, Schema, TableDef};
use diesel_builders::value::ValueKind;

fn col(name: &'static str, kind: ValueKind) -> ColumnDef {
    ColumnDef { name, kind, nullable: false, default_value: None, check: ColumnCheck::Unchecked }
}

fn schema(referenced: Vec<usize>) -> Schema {
    let accounts = TableDef {
        name: "accounts",
        columns: vec![
            col("id", ValueKind::Integer),
            col("email", ValueKind::Text),
            col("region", ValueKind::Integer),
            col("number", ValueKind::Integer),
        ],
        primary_key: 0,
        ancestors: vec![],
        mandatory_keys: vec![],
        discretionary_keys: vec![],
        foreign_keys: vec![],
        indexes: vec![
            IndexDef { columns: vec![1], unique: true },
            IndexDef { columns: vec![2, 3], unique: false },
        ],
    };
    let orders = TableDef {
        name: "orders",
        columns: vec![col("id", ValueKind::Integer), col("region", ValueKind::Integer), col("number", ValueKind::Integer)],
        primary_key: 0,
        ancestors: vec![],
        mandatory_keys: vec![],
        discretionary_keys: vec![],
        foreign_keys: vec![ForeignKeyDef { host_columns: vec![1, 2], referenced_table: 0, referenced_columns: referenced }],
        indexes: vec![],
    };
    Schema { tables: vec![accounts, orders] }
}

#[test]
fn primary_keys_and_declared_indexes() {
    let s = schema(vec![2, 3]);
    assert!(s.is_well_formed());
    assert!(s.is_table_index(0, &vec![0]));
    assert!(s.is_table_index(0, &vec![1]));
    assert!(s.is_table_index(0, &vec![2, 3]));
    assert!(!s.is_table_index(0, &vec![3, 2]));
    assert!(!s.is_table_index(0, &vec![2]));
    assert!(s.is_unique_table_index(0, &vec![0]));
    assert!(s.is_unique_table_index(0, &vec![1]));
    assert!(!s.is_unique_table_index(0, &vec![2, 3]));
}

#[test]
fn indexed_columns_and_tails() {
    let s = schema(vec![2, 3]);
    assert!(s.is_indexed_column(0, &vec![2, 3], 1, 3));
    assert!(!s.is_indexed_column(0, &vec![2, 3], 1, 2));
    assert!(!s.is_indexed_column(0, &vec![2, 3], 2, 3));
    assert!(s.is_uniquely_indexed_column(0, &vec![1], 0, 1));
    assert!(!s.is_uniquely_indexed_column(0, &vec![2, 3], 0, 2));
    assert!(s.is_index_tail(0, &vec![2, 3], 1, &vec![3]));
    assert!(s.is_index_tail(0, &vec![2, 3], 0, &vec![2, 3]));
    assert!(!s.is_index_tail(0, &vec![2, 3], 2, &vec![]));
    assert!(!s.is_index_tail(0, &vec![2, 3], 1, &vec![2]));
    assert!(s.is_unique_index_tail(0, &vec![0], 0, &vec![0]));
    assert!(!s.is_unique_index_tail(0, &vec![2, 3], 1, &vec![3]));
}

#[test]
fn foreign_key_tails() {
    let s = schema(vec![2, 3]);
    assert!(s.is_foreign_key_tail(1, &vec![1, 2], 0, &vec![2, 3], 1, &vec![2], &vec![3]));
    assert!(s.is_foreign_key_tail(1, &vec![1, 2], 0, &vec![2, 3], 0, &vec![1, 2], &vec![2, 3]));
    assert!(!s.is_foreign_key_tail(1, &vec![1, 2], 0, &vec![2, 3], 1, &vec![1], &vec![3]));
    assert!(!s.is_foreign_key_tail(1, &vec![2, 1], 0, &vec![2, 3], 1, &vec![1], &vec![3]));
}

#[test]
fn foreign_key_must_reference_an_index() {
    assert!(schema(vec![2, 3]).is_well_formed());
    assert!(!schema(vec![3, 2]).is_well_formed());
    assert!(!schema(vec![1, 2]).is_well_formed());
}

#[test]
fn index_of_unknown_columns_is_refused() {
    let mut s = schema(vec![2, 3]);
    s.tables[0].indexes.push(IndexDef { columns: vec![9], unique: false });
    assert!(!s.is_well_formed());
    let mut s = schema(vec![2, 3]);
    s.tables[0].indexes.push(IndexDef { columns: vec![], unique: true });
    assert!(!s.is_well_formed());
}
