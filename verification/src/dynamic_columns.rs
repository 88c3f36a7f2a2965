//! Columns named at run time: reading them from records and from the
//! records of a table's ancestors, and the names of columns.
use vstd::prelude::*;
use crate::value::{Value, ValueKind};
use crate::schema::Schema;
use crate::model::{Model, ModelView, model_wf};
use crate::builder_error::DynamicColumnError;

verus! {

/// A column named at run time: its table, its position in the table, and
/// the kind of the values read through it.
#[derive(Clone, Copy, Debug, PartialEq, Eq, Structural)]
pub struct DynColumn {
    /// The table of the column.
    pub table: usize,
    /// The position of the column in its table.
    pub column: usize,
    /// The kind of the values read through the column.
    pub kind: ValueKind,
}

impl DynColumn {
    /// Whether the column names a column of the schema.
    pub open spec fn wf(self, s: Schema) -> bool {
        s.has_column(self.table as int, self.column as int)
    }

    /// The dynamic column of column `c` of table `t`, with the kind of the
    /// column's values.
    pub open spec fn of_spec(s: Schema, t: int, c: int) -> DynColumn {
        DynColumn { table: t as usize, column: c as usize, kind: s.column(t, c).kind }
    }

    /// Returns the dynamic column of column `c` of table `t`.
    pub fn of(schema: &Schema, t: usize, c: usize) -> (r: DynColumn)
        requires
            schema.has_column(t as int, c as int),
        ensures
            r == DynColumn::of_spec(*schema, t as int, c as int),
    {
        DynColumn { table: t, column: c, kind: schema.tables[t].columns[c].kind }
    }

    /// Returns the name of the column's table.
    pub fn table_name(&self, schema: &Schema) -> (r: &'static str)
        requires
            self.wf(*schema),
        ensures
            r == schema.tables@[self.table as int].name,
    {
        schema.tables[self.table].name
    }

    /// Returns the name of the column.
    pub fn column_name(&self, schema: &Schema) -> (r: &'static str)
        requires
            self.wf(*schema),
        ensures
            r == schema.column(self.table as int, self.column as int).name,
    {
        schema.tables[self.table].columns[self.column].name
    }
}

/// The refusal of a dynamic column that a record does not have.
pub open spec fn unknown_column(s: Schema, dc: DynColumn) -> DynamicColumnError {
    DynamicColumnError::UnknownColumn {
        table_name: s.tables@[dc.table as int].name,
        column_name: s.column(dc.table as int, dc.column as int).name,
    }
}

/// Returns the refusal of a dynamic column.
pub(crate) fn unknown_column_error(schema: &Schema, dc: DynColumn) -> (r: DynamicColumnError)
    requires
        dc.wf(*schema),
    ensures
        r == unknown_column(*schema, dc),
{
    DynamicColumnError::UnknownColumn {
        table_name: dc.table_name(schema),
        column_name: dc.column_name(schema),
    }
}

/// Whether record `m` has dynamic column `dc`: a column of its table, read
/// with the kind of the column's values.
pub open spec fn dyn_matches(s: Schema, m: ModelView, dc: DynColumn) -> bool {
    &&& dc.table as int == m.table
    &&& s.column(dc.table as int, dc.column as int).kind == dc.kind
}

/// The value of dynamic column `dc` in record `m`, or its refusal.
pub open spec fn dyn_value(s: Schema, m: ModelView, dc: DynColumn) -> Result<Option<Value>, DynamicColumnError> {
    if dyn_matches(s, m, dc) {
        Ok(m.values[dc.column as int])
    } else {
        Err(unknown_column(s, dc))
    }
}

/// The value of dynamic column `dc` in the first of records `ms` that has
/// it, or its refusal when none has it.
pub open spec fn chain_dyn_value(s: Schema, ms: Seq<ModelView>, dc: DynColumn) -> Result<
    Option<Value>,
    DynamicColumnError,
>
    decreases ms.len(),
{
    if ms.len() == 0 {
        Err(unknown_column(s, dc))
    } else if dyn_matches(s, ms[0], dc) {
        Ok(ms[0].values[dc.column as int])
    } else {
        chain_dyn_value(s, ms.drop_first(), dc)
    }
}

/// The abstract values of records.
pub open spec fn models_view(ms: Seq<Model>) -> Seq<ModelView> {
    ms.map_values(|m: Model| m@)
}

/// The value behind a borrowed outcome.
pub open spec fn deref_outcome(r: Result<Option<&Value>, DynamicColumnError>) -> Result<
    Option<Value>,
    DynamicColumnError,
> {
    match r {
        Ok(Some(v)) => Ok(Some(*v)),
        Ok(None) => Ok(None),
        Err(e) => Err(e),
    }
}

/// Lookup of a dynamic column among the columns of one record's table.
pub trait VariadicTryGetDynamicColumn: View<V = ModelView> {
    /// Returns the value of dynamic column `column`, or its refusal when the
    /// record's table has no such column of that kind.
    fn variadic_try_get_dynamic_column(&self, schema: &Schema, column: DynColumn) -> (r: Result<
        Option<&Value>,
        DynamicColumnError,
    >)
        requires
            model_wf(*schema, self@),
            column.wf(*schema),
        ensures
            deref_outcome(r) == dyn_value(*schema, self@, column),
    ;
}

impl VariadicTryGetDynamicColumn for Model {
    fn variadic_try_get_dynamic_column(&self, schema: &Schema, column: DynColumn) -> (r: Result<
        Option<&Value>,
        DynamicColumnError,
    >) {
        let t = self.table;
        let columns = &schema.tables[t].columns;
        let mut j: usize = 0;
        while j < columns.len()
            invariant
                j <= columns@.len(),
                columns@ == schema.tables@[t as int].columns@,
                model_wf(*schema, self@),
                t == self.table,
                forall|i: int|
                    0 <= i < j ==> !(column.table == t && column.column == i && columns@[i].kind
                        == column.kind),
            decreases columns.len() - j,
        {
            if column.table == t && column.column == j && columns[j].kind == column.kind {
                return Ok(self.values[j].as_ref());
            }
            j += 1;
        }
        Err(unknown_column_error(schema, column))
    }
}

/// Records from which dynamic columns can be read.
pub trait TryGetDynamicColumn {
    /// Whether the records are well formed.
    spec fn dynamic_target_wf(&self, s: Schema) -> bool;

    /// The value of a dynamic column, or its refusal.
    spec fn dynamic_column_spec(&self, s: Schema, dc: DynColumn) -> Result<Option<Value>, DynamicColumnError>;

    /// Returns a reference to the value of dynamic column `column`, or its
    /// refusal.
    fn try_get_dynamic_column_ref(&self, schema: &Schema, column: DynColumn) -> (r: Result<
        Option<&Value>,
        DynamicColumnError,
    >)
        requires
            self.dynamic_target_wf(*schema),
            column.wf(*schema),
        ensures
            deref_outcome(r) == self.dynamic_column_spec(*schema, column),
    ;

    /// Returns the value of dynamic column `column`, or its refusal.
    fn try_get_dynamic_column(&self, schema: &Schema, column: DynColumn) -> (r: Result<
        Option<Value>,
        DynamicColumnError,
    >)
        requires
            self.dynamic_target_wf(*schema),
            column.wf(*schema),
        ensures
            r == self.dynamic_column_spec(*schema, column),
    {
        match self.try_get_dynamic_column_ref(schema, column) {
            Ok(Some(v)) => Ok(Some(*v)),
            Ok(None) => Ok(None),
            Err(e) => Err(e),
        }
    }
}

impl TryGetDynamicColumn for Model {
    open spec fn dynamic_target_wf(&self, s: Schema) -> bool {
        model_wf(s, self@)
    }

    open spec fn dynamic_column_spec(&self, s: Schema, dc: DynColumn) -> Result<Option<Value>, DynamicColumnError> {
        dyn_value(s, self@, dc)
    }

    fn try_get_dynamic_column_ref(&self, schema: &Schema, column: DynColumn) -> (r: Result<
        Option<&Value>,
        DynamicColumnError,
    >) {
        self.variadic_try_get_dynamic_column(schema, column)
    }
}

/// The records of a table and its ancestors: a dynamic column is read from
/// the first record that has it.
impl TryGetDynamicColumn for Vec<Model> {
    open spec fn dynamic_target_wf(&self, s: Schema) -> bool {
        forall|i: int| 0 <= i < self@.len() ==> model_wf(s, (#[trigger] self@[i])@)
    }

    open spec fn dynamic_column_spec(&self, s: Schema, dc: DynColumn) -> Result<Option<Value>, DynamicColumnError> {
        chain_dyn_value(s, models_view(self@), dc)
    }

    fn try_get_dynamic_column_ref(&self, schema: &Schema, column: DynColumn) -> (r: Result<
        Option<&Value>,
        DynamicColumnError,
    >) {
        let ghost mv = models_view(self@);
        assert(mv.skip(0) =~= mv);
        let mut i: usize = 0;
        while i < self.len()
            invariant
                i <= self@.len(),
                mv == models_view(self@),
                forall|k: int| 0 <= k < self@.len() ==> model_wf(*schema, (#[trigger] self@[k])@),
                column.wf(*schema),
                chain_dyn_value(*schema, mv, column) == chain_dyn_value(*schema, mv.skip(i as int), column),
            decreases self.len() - i,
        {
            let ghost rest = mv.skip(i as int);
            assert(rest[0] == self@[i as int]@);
            assert(rest.drop_first() =~= mv.skip(i + 1));
            match self[i].variadic_try_get_dynamic_column(schema, column) {
                Ok(v) => {
                    return Ok(v);
                },
                Err(_) => {},
            }
            i += 1;
        }
        assert(mv.skip(i as int).len() == 0);
        Err(unknown_column_error(schema, column))
    }
}

/// The values of dynamic columns `cols`, read in order, or the refusal of
/// the first column that cannot be read.
pub open spec fn dyn_values<T: TryGetDynamicColumn>(target: T, s: Schema, cols: Seq<DynColumn>) -> Result<
    Seq<Option<Value>>,
    DynamicColumnError,
>
    decreases cols.len(),
{
    if cols.len() == 0 {
        Ok(Seq::empty())
    } else {
        match target.dynamic_column_spec(s, cols[0]) {
            Err(e) => Err(e),
            Ok(v) => match dyn_values(target, s, cols.drop_first()) {
                Err(e) => Err(e),
                Ok(vs) => Ok(seq![v] + vs),
            },
        }
    }
}

/// An outcome with values `front` put before its values.
pub open spec fn prepend_values(front: Seq<Option<Value>>, r: Result<Seq<Option<Value>>, DynamicColumnError>) -> Result<
    Seq<Option<Value>>,
    DynamicColumnError,
> {
    match r {
        Ok(vs) => Ok(front + vs),
        Err(e) => Err(e),
    }
}

/// The abstract value of an outcome of several reads.
pub open spec fn values_outcome(r: Result<Vec<Option<Value>>, DynamicColumnError>) -> Result<
    Seq<Option<Value>>,
    DynamicColumnError,
> {
    match r {
        Ok(v) => Ok(v@),
        Err(e) => Err(e),
    }
}

/// Reads of several dynamic columns, in order.
pub trait VariadicTryGetDynamicColumns {
    /// The dynamic columns.
    spec fn dyn_columns(&self) -> Seq<DynColumn>;

    /// Returns the values of the dynamic columns in `target`, in order, or
    /// the refusal of the first column that cannot be read.
    fn variadic_try_get_dynamic_columns<T: TryGetDynamicColumn>(&self, schema: &Schema, target: &T) -> (r: Result<
        Vec<Option<Value>>,
        DynamicColumnError,
    >)
        requires
            target.dynamic_target_wf(*schema),
            forall|j: int| 0 <= j < self.dyn_columns().len() ==> (#[trigger] self.dyn_columns()[j]).wf(*schema),
        ensures
            values_outcome(r) == dyn_values(*target, *schema, self.dyn_columns()),
    ;
}

impl VariadicTryGetDynamicColumns for Vec<DynColumn> {
    open spec fn dyn_columns(&self) -> Seq<DynColumn> {
        self@
    }

    fn variadic_try_get_dynamic_columns<T: TryGetDynamicColumn>(&self, schema: &Schema, target: &T) -> (r: Result<
        Vec<Option<Value>>,
        DynamicColumnError,
    >) {
        let ghost cols = self@;
        assert(cols == self.dyn_columns());
        assert forall|j: int| 0 <= j < cols.len() implies (#[trigger] cols[j]).wf(*schema) by {
            assert(self.dyn_columns()[j].wf(*schema));
        }
        let mut out: Vec<Option<Value>> = Vec::new();
        let mut i: usize = 0;
        assert(cols.skip(0) =~= cols);
        assert(prepend_values(out@, dyn_values(*target, *schema, cols)) == dyn_values(*target, *schema, cols)) by {
            match dyn_values(*target, *schema, cols) {
                Ok(vs) => {
                    assert(out@ + vs =~= vs);
                },
                Err(_) => {},
            }
        }
        while i < self.len()
            invariant
                i <= cols.len(),
                cols == self@,
                target.dynamic_target_wf(*schema),
                forall|j: int| 0 <= j < cols.len() ==> (#[trigger] cols[j]).wf(*schema),
                dyn_values(*target, *schema, cols) == prepend_values(
                    out@,
                    dyn_values(*target, *schema, cols.skip(i as int)),
                ),
            decreases self.len() - i,
        {
            let ghost rest = cols.skip(i as int);
            assert(rest[0] == cols[i as int]);
            assert(rest.drop_first() =~= cols.skip(i + 1));
            match target.try_get_dynamic_column(schema, self[i]) {
                Err(e) => {
                    assert(dyn_values(*target, *schema, rest) == Err::<Seq<Option<Value>>, DynamicColumnError>(e));
                    return Err(e);
                },
                Ok(v) => {
                    proof {
                        match dyn_values(*target, *schema, cols.skip(i + 1)) {
                            Ok(vs) => {
                                assert(out@ + (seq![v] + vs) =~= out@.push(v) + vs);
                            },
                            Err(_) => {},
                        }
                    }
                    out.push(v);
                },
            }
            i += 1;
        }
        assert(cols.skip(i as int).len() == 0);
        assert(out@ + Seq::<Option<Value>>::empty() =~= out@);
        Ok(out)
    }
}

/// Records from which several dynamic columns can be read at once.
pub trait TryGetDynamicColumns: TryGetDynamicColumn + Sized {
    /// Returns the values of dynamic columns `columns`, in order, or the
    /// refusal of the first column that cannot be read.
    fn try_get_dynamic_columns(&self, schema: &Schema, columns: &Vec<DynColumn>) -> (r: Result<
        Vec<Option<Value>>,
        DynamicColumnError,
    >)
        requires
            self.dynamic_target_wf(*schema),
            forall|j: int| 0 <= j < columns@.len() ==> (#[trigger] columns@[j]).wf(*schema),
        ensures
            values_outcome(r) == dyn_values(*self, *schema, columns@),
    {
        columns.variadic_try_get_dynamic_columns(schema, self)
    }
}

impl<T: TryGetDynamicColumn> TryGetDynamicColumns for T {}

} // verus!
