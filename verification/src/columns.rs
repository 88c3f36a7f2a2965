//! Collections of columns: their tables, their names, their dynamic
//! counterparts, and whether they share one value kind.
use vstd::prelude::*;
use crate::value::ValueKind;
use crate::schema::Schema;
use crate::dynamic_columns::DynColumn;

verus! {

/// Whether every pair of `cols` names a column of the schema: a table and
/// a position in it.
pub open spec fn columns_wf(s: Schema, cols: Seq<(usize, usize)>) -> bool {
    forall|j: int| 0 <= j < cols.len() ==> s.has_column((#[trigger] cols[j]).0 as int, cols[j].1 as int)
}

/// The names of columns `cols`.
pub open spec fn column_names(s: Schema, cols: Seq<(usize, usize)>) -> Seq<&'static str> {
    cols.map_values(|p: (usize, usize)| s.column(p.0 as int, p.1 as int).name)
}

/// The names of the tables of columns `cols`.
pub open spec fn table_names(s: Schema, cols: Seq<(usize, usize)>) -> Seq<&'static str> {
    cols.map_values(|p: (usize, usize)| s.tables@[p.0 as int].name)
}

/// The dynamic columns of columns `cols`.
pub open spec fn dyn_columns_of(s: Schema, cols: Seq<(usize, usize)>) -> Seq<DynColumn> {
    cols.map_values(|p: (usize, usize)| DynColumn::of_spec(s, p.0 as int, p.1 as int))
}

/// The names of dynamic columns `dcs`.
pub open spec fn dyn_column_names(s: Schema, dcs: Seq<DynColumn>) -> Seq<&'static str> {
    dcs.map_values(|d: DynColumn| s.column(d.table as int, d.column as int).name)
}

/// The names of the tables of dynamic columns `dcs`.
pub open spec fn dyn_table_names(s: Schema, dcs: Seq<DynColumn>) -> Seq<&'static str> {
    dcs.map_values(|d: DynColumn| s.tables@[d.table as int].name)
}

/// A collection of columns, each given by its table and its position.
pub trait Columns {
    /// The columns.
    spec fn column_list(&self) -> Seq<(usize, usize)>;

    /// Returns the tables to which the columns belong, in order.
    fn column_tables(&self) -> (r: Vec<usize>)
        ensures
            r@ == self.column_list().map_values(|p: (usize, usize)| p.0),
    ;
}

impl Columns for Vec<(usize, usize)> {
    open spec fn column_list(&self) -> Seq<(usize, usize)> {
        self@
    }

    fn column_tables(&self) -> (r: Vec<usize>) {
        let mut out: Vec<usize> = Vec::new();
        let mut i: usize = 0;
        while i < self.len()
            invariant
                i <= self@.len(),
                out@ == self@.take(i as int).map_values(|p: (usize, usize)| p.0),
            decreases self.len() - i,
        {
            out.push(self[i].0);
            assert(self@.take(i + 1).map_values(|p: (usize, usize)| p.0) =~= self@.take(
                i as int,
            ).map_values(|p: (usize, usize)| p.0).push(self@[i as int].0));
            i += 1;
        }
        assert(self@.take(self@.len() as int) =~= self@);
        out
    }
}

/// Columns with their names and the names of their tables.
pub trait NestedColumns: Columns {
    /// Returns the names of the columns, in order.
    fn nested_column_names(&self, schema: &Schema) -> (r: Vec<&'static str>)
        requires
            columns_wf(*schema, self.column_list()),
        ensures
            r@ == column_names(*schema, self.column_list()),
    ;

    /// Returns the names of the tables of the columns, in order.
    fn nested_table_names(&self, schema: &Schema) -> (r: Vec<&'static str>)
        requires
            columns_wf(*schema, self.column_list()),
        ensures
            r@ == table_names(*schema, self.column_list()),
    ;
}

impl NestedColumns for Vec<(usize, usize)> {
    fn nested_column_names(&self, schema: &Schema) -> (r: Vec<&'static str>) {
        assert(self.column_list() == self@);
        let mut out: Vec<&'static str> = Vec::new();
        let mut i: usize = 0;
        while i < self.len()
            invariant
                i <= self@.len(),
                columns_wf(*schema, self@),
                out@ == column_names(*schema, self@.take(i as int)),
            decreases self.len() - i,
        {
            let (t, c) = self[i];
            assert(schema.has_column(self@[i as int].0 as int, self@[i as int].1 as int));
            out.push(schema.tables[t].columns[c].name);
            assert(column_names(*schema, self@.take(i + 1)) =~= column_names(*schema, self@.take(i as int)).push(
                schema.column(t as int, c as int).name,
            ));
            i += 1;
        }
        assert(self@.take(self@.len() as int) =~= self@);
        out
    }

    fn nested_table_names(&self, schema: &Schema) -> (r: Vec<&'static str>) {
        assert(self.column_list() == self@);
        let mut out: Vec<&'static str> = Vec::new();
        let mut i: usize = 0;
        while i < self.len()
            invariant
                i <= self@.len(),
                columns_wf(*schema, self@),
                out@ == table_names(*schema, self@.take(i as int)),
            decreases self.len() - i,
        {
            let (t, _c) = self[i];
            assert(schema.has_column(self@[i as int].0 as int, self@[i as int].1 as int));
            out.push(schema.tables[t].name);
            assert(table_names(*schema, self@.take(i + 1)) =~= table_names(*schema, self@.take(i as int)).push(
                schema.tables@[t as int].name,
            ));
            i += 1;
        }
        assert(self@.take(self@.len() as int) =~= self@);
        out
    }
}

/// Dynamic columns with their names and the names of their tables.
pub trait NestedDynColumns {
    /// The dynamic columns.
    spec fn dyn_list(&self) -> Seq<DynColumn>;

    /// Returns the names of the dynamic columns, in order.
    fn nested_dyn_column_names(&self, schema: &Schema) -> (r: Vec<&'static str>)
        requires
            forall|j: int| 0 <= j < self.dyn_list().len() ==> (#[trigger] self.dyn_list()[j]).wf(*schema),
        ensures
            r@ == dyn_column_names(*schema, self.dyn_list()),
    ;

    /// Returns the names of the tables of the dynamic columns, in order.
    fn nested_dyn_column_table_names(&self, schema: &Schema) -> (r: Vec<&'static str>)
        requires
            forall|j: int| 0 <= j < self.dyn_list().len() ==> (#[trigger] self.dyn_list()[j]).wf(*schema),
        ensures
            r@ == dyn_table_names(*schema, self.dyn_list()),
    ;
}

impl NestedDynColumns for Vec<DynColumn> {
    open spec fn dyn_list(&self) -> Seq<DynColumn> {
        self@
    }

    fn nested_dyn_column_names(&self, schema: &Schema) -> (r: Vec<&'static str>) {
        assert forall|j: int| 0 <= j < self@.len() implies (#[trigger] self@[j]).wf(*schema) by {
            assert(self.dyn_list()[j].wf(*schema));
        }
        let mut out: Vec<&'static str> = Vec::new();
        let mut i: usize = 0;
        while i < self.len()
            invariant
                i <= self@.len(),
                forall|j: int| 0 <= j < self@.len() ==> (#[trigger] self@[j]).wf(*schema),
                out@ == dyn_column_names(*schema, self@.take(i as int)),
            decreases self.len() - i,
        {
            assert(self@[i as int].wf(*schema));
            out.push(self[i].column_name(schema));
            assert(dyn_column_names(*schema, self@.take(i + 1)) =~= dyn_column_names(
                *schema,
                self@.take(i as int),
            ).push(schema.column(self@[i as int].table as int, self@[i as int].column as int).name));
            i += 1;
        }
        assert(self@.take(self@.len() as int) =~= self@);
        out
    }

    fn nested_dyn_column_table_names(&self, schema: &Schema) -> (r: Vec<&'static str>) {
        assert forall|j: int| 0 <= j < self@.len() implies (#[trigger] self@[j]).wf(*schema) by {
            assert(self.dyn_list()[j].wf(*schema));
        }
        let mut out: Vec<&'static str> = Vec::new();
        let mut i: usize = 0;
        while i < self.len()
            invariant
                i <= self@.len(),
                forall|j: int| 0 <= j < self@.len() ==> (#[trigger] self@[j]).wf(*schema),
                out@ == dyn_table_names(*schema, self@.take(i as int)),
            decreases self.len() - i,
        {
            assert(self@[i as int].wf(*schema));
            out.push(self[i].table_name(schema));
            assert(dyn_table_names(*schema, self@.take(i + 1)) =~= dyn_table_names(
                *schema,
                self@.take(i as int),
            ).push(schema.tables@[self@[i as int].table as int].name));
            i += 1;
        }
        assert(self@.take(self@.len() as int) =~= self@);
        out
    }
}

/// Columns that have dynamic counterparts.
pub trait HasNestedDynColumns: NestedColumns {
    /// Returns the dynamic columns of the columns, in order, each read with
    /// the kind of its column's values.
    fn nested_dyn_columns(&self, schema: &Schema) -> (r: Vec<DynColumn>)
        requires
            columns_wf(*schema, self.column_list()),
        ensures
            r@ == dyn_columns_of(*schema, self.column_list()),
    ;
}

impl HasNestedDynColumns for Vec<(usize, usize)> {
    fn nested_dyn_columns(&self, schema: &Schema) -> (r: Vec<DynColumn>) {
        assert(self.column_list() == self@);
        let mut out: Vec<DynColumn> = Vec::new();
        let mut i: usize = 0;
        while i < self.len()
            invariant
                i <= self@.len(),
                columns_wf(*schema, self@),
                out@ == dyn_columns_of(*schema, self@.take(i as int)),
            decreases self.len() - i,
        {
            let (t, c) = self[i];
            assert(schema.has_column(self@[i as int].0 as int, self@[i as int].1 as int));
            out.push(DynColumn::of(schema, t, c));
            assert(dyn_columns_of(*schema, self@.take(i + 1)) =~= dyn_columns_of(*schema, self@.take(i as int)).push(
                DynColumn::of_spec(*schema, t as int, c as int),
            ));
            i += 1;
        }
        assert(self@.take(self@.len() as int) =~= self@);
        out
    }
}

/// The dynamic counterparts of columns carry the names of the columns and
/// of their tables.
pub proof fn law_dynamic_columns_keep_names(s: Schema, cols: Seq<(usize, usize)>)
    ensures
        dyn_column_names(s, dyn_columns_of(s, cols)) == column_names(s, cols),
        dyn_table_names(s, dyn_columns_of(s, cols)) == table_names(s, cols),
        forall|j: int| #![trigger dyn_columns_of(s, cols)[j]]
            0 <= j < cols.len() ==> dyn_columns_of(s, cols)[j].wf(s) == s.has_column(cols[j].0 as int, cols[j].1 as int),
{
    assert(dyn_column_names(s, dyn_columns_of(s, cols)) =~= column_names(s, cols));
    assert(dyn_table_names(s, dyn_columns_of(s, cols)) =~= table_names(s, cols));
}

/// Whether every column of `cols` holds values of kind `kind`.
pub open spec fn all_of_kind(s: Schema, cols: Seq<(usize, usize)>, kind: ValueKind) -> bool {
    forall|j: int| 0 <= j < cols.len() ==> s.column((#[trigger] cols[j]).0 as int, cols[j].1 as int).kind == kind
}

/// Columns whose values all have one kind.
pub trait HomogeneouslyTypedNestedColumns: Columns {
    /// Returns whether every column holds values of kind `kind`.
    fn is_homogeneously_typed(&self, schema: &Schema, kind: ValueKind) -> (r: bool)
        requires
            columns_wf(*schema, self.column_list()),
        ensures
            r == all_of_kind(*schema, self.column_list(), kind),
    ;
}

impl HomogeneouslyTypedNestedColumns for Vec<(usize, usize)> {
    fn is_homogeneously_typed(&self, schema: &Schema, kind: ValueKind) -> (r: bool) {
        assert(self.column_list() == self@);
        let mut i: usize = 0;
        while i < self.len()
            invariant
                i <= self@.len(),
                columns_wf(*schema, self@),
                all_of_kind(*schema, self@.take(i as int), kind),
            decreases self.len() - i,
        {
            let (t, c) = self[i];
            assert(schema.has_column(self@[i as int].0 as int, self@[i as int].1 as int));
            if schema.tables[t].columns[c].kind != kind {
                assert(!all_of_kind(*schema, self@, kind)) by {
                    assert(schema.column(self@[i as int].0 as int, self@[i as int].1 as int).kind != kind);
                }
                return false;
            }
            assert forall|j: int| 0 <= j < i + 1 implies schema.column(
                (#[trigger] self@.take(i + 1)[j]).0 as int,
                self@.take(i + 1)[j].1 as int,
            ).kind == kind by {
                if j < i {
                    assert(self@.take(i + 1)[j] == self@.take(i as int)[j]);
                }
            }
            i += 1;
        }
        assert(self@.take(self@.len() as int) =~= self@);
        true
    }
}

/// The kind shared by all columns of `cols`, if they have one: the kind of
/// the first column when all share it, and none for no columns.
pub open spec fn common_kind(s: Schema, cols: Seq<(usize, usize)>) -> Option<ValueKind> {
    if cols.len() > 0 && all_of_kind(s, cols, s.column(cols[0].0 as int, cols[0].1 as int).kind) {
        Some(s.column(cols[0].0 as int, cols[0].1 as int).kind)
    } else {
        None
    }
}

/// Non-empty columns whose values all have one kind.
pub trait HomogeneouslyTypedColumns: HomogeneouslyTypedNestedColumns {
    /// Returns the kind shared by all the columns, if they have one.
    fn common_value_kind(&self, schema: &Schema) -> (r: Option<ValueKind>)
        requires
            columns_wf(*schema, self.column_list()),
        ensures
            r == common_kind(*schema, self.column_list()),
    ;
}

impl HomogeneouslyTypedColumns for Vec<(usize, usize)> {
    fn common_value_kind(&self, schema: &Schema) -> (r: Option<ValueKind>) {
        if self.len() == 0 {
            return None;
        }
        let (t, c) = self[0];
        assert(schema.has_column(self@[0].0 as int, self@[0].1 as int));
        let kind = schema.tables[t].columns[c].kind;
        if self.is_homogeneously_typed(schema, kind) {
            Some(kind)
        } else {
            None
        }
    }
}

/// The columns of a matrix of columns, row after row.
pub open spec fn flatten_matrix(m: Seq<Seq<(usize, usize)>>) -> Seq<(usize, usize)> {
    m.flatten()
}

/// A matrix of columns: one collection of columns per row.
pub trait NestedColumnsCollection {
    /// The rows of the matrix.
    spec fn rows(&self) -> Seq<Seq<(usize, usize)>>;

    /// Returns whether every column of every row names a column of the
    /// schema.
    fn columns_collection_wf(&self, schema: &Schema) -> (r: bool)
        ensures
            r == forall|i: int| 0 <= i < self.rows().len() ==> columns_wf(*schema, #[trigger] self.rows()[i]),
    ;
}

/// Returns whether every pair of `cols` names a column of the schema.
pub fn check_columns(schema: &Schema, cols: &Vec<(usize, usize)>) -> (r: bool)
    ensures
        r == columns_wf(*schema, cols@),
{
    let mut j: usize = 0;
    while j < cols.len()
        invariant
            j <= cols@.len(),
            forall|k: int| 0 <= k < j ==> schema.has_column((#[trigger] cols@[k]).0 as int, cols@[k].1 as int),
        decreases cols.len() - j,
    {
        let (t, c) = cols[j];
        if t >= schema.tables.len() || c >= schema.tables[t].columns.len() {
            assert(!schema.has_column(cols@[j as int].0 as int, cols@[j as int].1 as int));
            return false;
        }
        j += 1;
    }
    true
}

impl NestedColumnsCollection for Vec<Vec<(usize, usize)>> {
    open spec fn rows(&self) -> Seq<Seq<(usize, usize)>> {
        self@.map_values(|r: Vec<(usize, usize)>| r@)
    }

    fn columns_collection_wf(&self, schema: &Schema) -> (r: bool) {
        let mut i: usize = 0;
        while i < self.len()
            invariant
                i <= self@.len(),
                forall|k: int| 0 <= k < i ==> columns_wf(*schema, #[trigger] self.rows()[k]),
            decreases self.len() - i,
        {
            if !check_columns(schema, &self[i]) {
                assert(!columns_wf(*schema, self.rows()[i as int]));
                return false;
            }
            i += 1;
        }
        true
    }
}

/// A matrix of columns read row after row.
pub trait ColumnsCollection: NestedColumnsCollection {
    /// Returns the columns of the matrix, row after row.
    fn flattened_columns(&self) -> (r: Vec<(usize, usize)>)
        ensures
            r@ == flatten_matrix(self.rows()),
    ;
}

impl ColumnsCollection for Vec<Vec<(usize, usize)>> {
    fn flattened_columns(&self) -> (r: Vec<(usize, usize)>) {
        let mut out: Vec<(usize, usize)> = Vec::new();
        let mut i: usize = 0;
        while i < self.len()
            invariant
                i <= self@.len(),
                out@ == self.rows().take(i as int).flatten(),
            decreases self.len() - i,
        {
            let row = &self[i];
            let mut j: usize = 0;
            let ghost before = out@;
            while j < row.len()
                invariant
                    j <= row@.len(),
                    out@ == before + row@.take(j as int),
                decreases row.len() - j,
            {
                out.push(row[j]);
                assert(row@.take(j + 1) =~= row@.take(j as int).push(row@[j as int]));
                assert(before + row@.take(j + 1) =~= (before + row@.take(j as int)).push(row@[j as int]));
                j += 1;
            }
            assert(row@.take(row@.len() as int) =~= row@);
            proof {
                let rows = self.rows();
                assert(rows.take(i + 1) =~= rows.take(i as int).push(rows[i as int]));
                rows.take(i as int).lemma_flatten_push(rows[i as int]);
            }
            i += 1;
        }
        assert(self.rows().take(self@.len() as int) =~= self.rows());
        out
    }
}

} // verus!
