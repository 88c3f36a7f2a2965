//! Table records: complete models read back from the database, and
//! insertable models whose columns are set one by one.
use vstd::prelude::*;
use crate::value::Value;
use crate::schema::{Schema, ColumnDef, fits, passes_check};
use crate::builder_error::ValidationError;

verus! {

/// A record of a table.
#[derive(Debug, Clone, PartialEq, Eq, Hash, PartialOrd, Ord)]
pub struct Model {
    /// The table of the record.
    pub table: usize,
    /// One value per column of the table.
    pub values: Vec<Option<Value>>,
}

/// The abstract value of a record.
pub struct ModelView {
    /// The table of the record.
    pub table: int,
    /// One value per column of the table.
    pub values: Seq<Option<Value>>,
}

impl View for Model {
    type V = ModelView;

    open spec fn view(&self) -> ModelView {
        ModelView { table: self.table as int, values: self.values@ }
    }
}

/// A record of table `t` with one value of the right type per column.
pub open spec fn model_wf(s: Schema, m: ModelView) -> bool {
    &&& s.has_table(m.table)
    &&& m.values.len() == s.num_columns(m.table)
    &&& forall|c: int|
        #![trigger m.values[c]]
        0 <= c < m.values.len() ==> fits(s.column(m.table, c), m.values[c])
}

impl Model {
    /// Returns whether this record has one value of the right type per column
    /// of its table.
    pub fn conforms(&self, schema: &Schema) -> (r: bool)
        ensures
            r == model_wf(*schema, self@),
    {
        if self.table >= schema.tables.len() {
            return false;
        }
        let columns = &schema.tables[self.table].columns;
        if self.values.len() != columns.len() {
            return false;
        }
        let mut c: usize = 0;
        while c < self.values.len()
            invariant
                c <= self.values@.len(),
                self.table < schema.tables@.len(),
                columns@ == schema.tables@[self.table as int].columns@,
                self.values@.len() == columns@.len(),
                forall|j: int| 0 <= j < c ==> fits(columns@[j], self.values@[j]),
            decreases self.values.len() - c,
        {
            if !columns[c].accepts(&self.values[c]) {
                return false;
            }
            c += 1;
        }
        true
    }
}

/// The values of an insertable record, one slot per column: `None` while the
/// column is not set.
#[derive(Debug, Clone, PartialEq, Eq, Hash, PartialOrd, Ord)]
pub struct InsertableModel {
    /// The table of the record.
    pub table: usize,
    /// One slot per column of the table.
    pub values: Vec<Option<Option<Value>>>,
}

/// The abstract value of an insertable record.
pub struct NewValuesView {
    /// The table of the record.
    pub table: int,
    /// One slot per column of the table.
    pub slots: Seq<Option<Option<Value>>>,
}

impl View for InsertableModel {
    type V = NewValuesView;

    open spec fn view(&self) -> NewValuesView {
        NewValuesView { table: self.table as int, slots: self.values@ }
    }
}

/// Insertable values of table `t`: one slot per column, every set value of
/// the column's type.
pub open spec fn new_values_wf(s: Schema, nv: NewValuesView) -> bool {
    &&& s.has_table(nv.table)
    &&& nv.slots.len() == s.num_columns(nv.table)
    &&& forall|c: int|
        #![trigger nv.slots[c]]
        0 <= c < nv.slots.len() ==> match nv.slots[c] {
            Some(cell) => fits(s.column(nv.table, c), cell),
            None => true,
        }
}

/// The slots a new builder starts with: the default of each column that has
/// one, unset otherwise.
pub open spec fn default_slots(s: Schema, t: int) -> Seq<Option<Option<Value>>> {
    s.tables@[t].columns@.map_values(|col: ColumnDef| col.default_value)
}

/// Whether value `v` passes the validation rule of column `c` of table `t`.
pub open spec fn check_ok(s: Schema, t: int, c: int, v: Option<Value>) -> bool {
    passes_check(s.column(t, c), v)
}

/// The error reporting that column `c` of table `t` refused a value.
pub open spec fn column_error(s: Schema, t: int, c: int) -> ValidationError {
    ValidationError { table_name: s.tables@[t].name, column_name: s.column(t, c).name }
}

/// Whether the first `k` values pass the rules of their columns.
pub open spec fn all_pass(s: Schema, t: int, cols: Seq<usize>, vals: Seq<Option<Value>>, k: int) -> bool {
    forall|i: int| #![trigger cols[i]] 0 <= i < k ==> check_ok(s, t, cols[i] as int, vals[i])
}

/// The slots after setting `cols[i]` to `vals[i]` for each `i` in order.
pub open spec fn set_all(
    slots: Seq<Option<Option<Value>>>,
    cols: Seq<usize>,
    vals: Seq<Option<Value>>,
) -> Seq<Option<Option<Value>>>
    decreases cols.len(),
{
    if cols.len() == 0 || vals.len() == 0 {
        slots
    } else {
        set_all(slots, cols.drop_last(), vals.drop_last()).update(cols.last() as int, Some(vals.last()))
    }
}

/// The slots after setting `cols[i]` to the value in `vals[i]`, in order,
/// for each `i` where there is one.
pub open spec fn may_set_all(
    slots: Seq<Option<Option<Value>>>,
    cols: Seq<usize>,
    vals: Seq<Option<Option<Value>>>,
) -> Seq<Option<Option<Value>>>
    decreases cols.len(),
{
    if cols.len() == 0 || vals.len() == 0 {
        slots
    } else {
        let prev = may_set_all(slots, cols.drop_last(), vals.drop_last());
        match vals.last() {
            Some(v) => prev.update(cols.last() as int, Some(v)),
            None => prev,
        }
    }
}

/// Whether the first `k` present values pass the rules of their columns.
pub open spec fn all_may_pass(
    s: Schema,
    t: int,
    cols: Seq<usize>,
    vals: Seq<Option<Option<Value>>>,
    k: int,
) -> bool {
    forall|i: int|
        #![trigger cols[i]]
        0 <= i < k ==> match vals[i] {
            Some(v) => check_ok(s, t, cols[i] as int, v),
            None => true,
        }
}

/// Columns `cols` of table `t`, with the values `vals` of their types.
pub open spec fn values_fit(s: Schema, t: int, cols: Seq<usize>, vals: Seq<Option<Value>>) -> bool {
    &&& cols.len() == vals.len()
    &&& forall|i: int|
        #![trigger cols[i]]
        0 <= i < cols.len() ==> s.has_column(t, cols[i] as int) && fits(
            s.column(t, cols[i] as int),
            vals[i],
        )
}

/// Columns `cols` of table `t`, with the optional values `vals` of their
/// types.
pub open spec fn may_values_fit(
    s: Schema,
    t: int,
    cols: Seq<usize>,
    vals: Seq<Option<Option<Value>>>,
) -> bool {
    &&& cols.len() == vals.len()
    &&& forall|i: int|
        #![trigger cols[i]]
        0 <= i < cols.len() ==> s.has_column(t, cols[i] as int) && match vals[i] {
            Some(v) => fits(s.column(t, cols[i] as int), v),
            None => true,
        }
}

/// Columns `cols` of table `t`.
pub open spec fn columns_of(s: Schema, t: int, cols: Seq<usize>) -> bool {
    forall|i: int| #![trigger cols[i]] 0 <= i < cols.len() ==> s.has_column(t, cols[i] as int)
}

/// Returns the validation outcome of value `v` for column `c` of table `t`.
pub fn validate_value(schema: &Schema, t: usize, c: usize, v: &Option<Value>) -> (r: Result<(), ValidationError>)
    requires
        schema.has_column(t as int, c as int),
    ensures
        r is Ok <==> check_ok(*schema, t as int, c as int, *v),
        r matches Err(e) ==> e == column_error(*schema, t as int, c as int),
{
    let col = &schema.tables[t].columns[c];
    if col.check_value(v) {
        Ok(())
    } else {
        Err(ValidationError { table_name: schema.tables[t].name, column_name: col.name })
    }
}

} // verus!

verus! {

impl InsertableModel {
    /// Returns the insertable values a new builder of table `t` starts
    /// with: the default of each column that has one, unset otherwise.
    pub fn new(schema: &Schema, t: usize) -> (r: InsertableModel)
        requires
            schema.has_table(t as int),
        ensures
            r@.table == t,
            r@.slots == default_slots(*schema, t as int),
    {
        let columns = &schema.tables[t].columns;
        let mut values: Vec<Option<Option<Value>>> = Vec::new();
        let mut c: usize = 0;
        while c < columns.len()
            invariant
                c <= columns@.len(),
                columns@ == schema.tables@[t as int].columns@,
                values@ == default_slots(*schema, t as int).take(c as int),
            decreases columns.len() - c,
        {
            values.push(columns[c].default_value);
            assert(default_slots(*schema, t as int).take(c + 1) == default_slots(*schema, t as int).take(
                c as int,
            ).push(columns@[c as int].default_value));
            c += 1;
        }
        assert(default_slots(*schema, t as int).take(columns@.len() as int) == default_slots(
            *schema,
            t as int,
        ));
        InsertableModel { table: t, values }
    }

    /// Returns the slot of column `c`: the value set, or `None` if unset.
    pub fn may_get_column(&self, c: usize) -> (r: Option<Option<Value>>)
        requires
            c < self@.slots.len(),
        ensures
            r == self@.slots[c as int],
    {
        self.values[c]
    }

    /// Sets column `c` to `v`.
    pub fn set_column(&mut self, c: usize, v: Option<Value>)
        requires
            c < old(self)@.slots.len(),
        ensures
            final(self)@.table == old(self)@.table,
            final(self)@.slots == old(self)@.slots.update(c as int, Some(v)),
    {
        self.values.set(c, Some(v));
    }

    /// Sets column `c` to `v` when `v` passes the column's validation rule;
    /// otherwise leaves the values unchanged and returns the error.
    pub fn try_set_column(&mut self, schema: &Schema, c: usize, v: Option<Value>) -> (r: Result<(), ValidationError>)
        requires
            new_values_wf(*schema, old(self)@),
            c < old(self)@.slots.len(),
        ensures
            final(self)@.table == old(self)@.table,
            r is Ok <==> check_ok(*schema, old(self)@.table, c as int, v),
            r is Ok ==> final(self)@.slots == old(self)@.slots.update(c as int, Some(v)),
            r matches Err(e) ==> e == column_error(*schema, old(self)@.table, c as int)
                && final(self)@ == old(self)@,
    {
        validate_value(schema, self.table, c, &v)?;
        self.values.set(c, Some(v));
        Ok(())
    }
}

} // verus!

verus! {

impl InsertableModel {
    /// Returns whether these are well-formed insertable values: a table of
    /// the schema, one slot per column, every set value of the column's
    /// type.
    pub fn conforms(&self, schema: &Schema) -> (r: bool)
        ensures
            r == new_values_wf(*schema, self@),
    {
        let t = self.table;
        if t >= schema.tables.len() || self.values.len() != schema.tables[t].columns.len() {
            return false;
        }
        let mut c: usize = 0;
        while c < self.values.len()
            invariant
                c <= self.values@.len(),
                t == self.table,
                schema.has_table(t as int),
                self.values@.len() == schema.tables@[t as int].columns@.len(),
                forall|i: int|
                    #![trigger self@.slots[i]]
                    0 <= i < c ==> match self@.slots[i] {
                        Some(cell) => fits(schema.column(t as int, i), cell),
                        None => true,
                    },
            decreases self.values.len() - c,
        {
            match &self.values[c] {
                Some(cell) => {
                    if !schema.tables[t].columns[c].accepts(cell) {
                        assert(self@.slots[c as int] == Some(*cell));
                        return false;
                    }
                },
                None => {},
            }
            c += 1;
        }
        true
    }
}

} // verus!
