//! Traits for getting and setting single and multiple columns of records
//! and insertable records.
use vstd::prelude::*;
use crate::value::Value;
use crate::schema::Schema;
use crate::builder_error::ValidationError;
use crate::model::{
    Model, InsertableModel, NewValuesView, new_values_wf, model_wf, check_ok, column_error,
    all_pass, all_may_pass, set_all, may_set_all, values_fit, may_values_fit, columns_of,
    validate_value,
};

verus! {

/// Whether `k` is the first position whose value fails the rule of its
/// column.
pub open spec fn first_failure(
    s: Schema,
    t: int,
    cols: Seq<usize>,
    vals: Seq<Option<Value>>,
    k: int,
) -> bool {
    &&& 0 <= k < cols.len()
    &&& all_pass(s, t, cols, vals, k)
    &&& !check_ok(s, t, cols[k] as int, vals[k])
}

/// Whether `k` is the first position holding a value that fails the rule of
/// its column.
pub open spec fn first_may_failure(
    s: Schema,
    t: int,
    cols: Seq<usize>,
    vals: Seq<Option<Option<Value>>>,
    k: int,
) -> bool {
    &&& 0 <= k < cols.len()
    &&& all_may_pass(s, t, cols, vals, k)
    &&& vals[k] is Some
    &&& !check_ok(s, t, cols[k] as int, vals[k]->0)
}

/// Setting fitting values keeps the insertable values well formed.
pub proof fn lemma_set_all_wf(s: Schema, nv: NewValuesView, cols: Seq<usize>, vals: Seq<Option<Value>>)
    requires
        new_values_wf(s, nv),
        values_fit(s, nv.table, cols, vals),
    ensures
        new_values_wf(s, NewValuesView { table: nv.table, slots: set_all(nv.slots, cols, vals) }),
    decreases cols.len(),
{
    if cols.len() > 0 {
        lemma_set_all_wf(s, nv, cols.drop_last(), vals.drop_last());
        assert(s.has_column(nv.table, cols[cols.len() - 1] as int));
    }
}

/// Setting optional fitting values keeps the insertable values well formed.
pub proof fn lemma_may_set_all_wf(
    s: Schema,
    nv: NewValuesView,
    cols: Seq<usize>,
    vals: Seq<Option<Option<Value>>>,
)
    requires
        new_values_wf(s, nv),
        may_values_fit(s, nv.table, cols, vals),
    ensures
        new_values_wf(s, NewValuesView { table: nv.table, slots: may_set_all(nv.slots, cols, vals) }),
    decreases cols.len(),
{
    if cols.len() > 0 {
        lemma_may_set_all_wf(s, nv, cols.drop_last(), vals.drop_last());
        assert(s.has_column(nv.table, cols[cols.len() - 1] as int));
    }
}

/// Trait providing a getter for a column of a complete record.
pub trait GetColumn {
    /// Whether the record has column `c`.
    spec fn has_column_value(&self, c: int) -> bool;

    /// The value of column `c`.
    spec fn column_value(&self, c: int) -> Option<Value>;

    /// Returns a reference to the value of column `c`.
    fn get_column_ref(&self, c: usize) -> (r: &Option<Value>)
        requires
            self.has_column_value(c as int),
        ensures
            *r == self.column_value(c as int),
    ;

    /// Returns the value of column `c`.
    fn get_column(&self, c: usize) -> (r: Option<Value>)
        requires
            self.has_column_value(c as int),
        ensures
            r == self.column_value(c as int),
    {
        *self.get_column_ref(c)
    }
}

impl GetColumn for Model {
    open spec fn has_column_value(&self, c: int) -> bool {
        0 <= c < self.values@.len()
    }

    open spec fn column_value(&self, c: int) -> Option<Value> {
        self.values@[c]
    }

    fn get_column_ref(&self, c: usize) -> (r: &Option<Value>) {
        &self.values[c]
    }
}

/// Getter of a column with the column given at the call.
pub trait GetColumnExt: GetColumn {
    /// Returns the value of column `c`.
    fn get_column_value(&self, c: usize) -> (r: Option<Value>)
        requires
            self.has_column_value(c as int),
        ensures
            r == self.column_value(c as int),
    {
        self.get_column(c)
    }
}

impl<T: GetColumn> GetColumnExt for T {}

/// Trait providing a getter for a column that may not be set yet.
pub trait MayGetColumn {
    /// Whether the record has column `c`.
    spec fn has_slot(&self, c: int) -> bool;

    /// The slot of column `c`: the value set, or `None`.
    spec fn slot_value(&self, c: int) -> Option<Option<Value>>;

    /// Returns a reference to the value of column `c`, if set.
    fn may_get_column_ref(&self, c: usize) -> (r: Option<&Option<Value>>)
        requires
            self.has_slot(c as int),
        ensures
            match r {
                Some(v) => self.slot_value(c as int) == Some(*v),
                None => self.slot_value(c as int) is None,
            },
    ;

    /// Returns the value of column `c`, if set.
    fn may_get_column(&self, c: usize) -> (r: Option<Option<Value>>)
        requires
            self.has_slot(c as int),
        ensures
            r == self.slot_value(c as int),
    {
        match self.may_get_column_ref(c) {
            Some(v) => Some(*v),
            None => None,
        }
    }
}

impl MayGetColumn for InsertableModel {
    open spec fn has_slot(&self, c: int) -> bool {
        0 <= c < self.values@.len()
    }

    open spec fn slot_value(&self, c: int) -> Option<Option<Value>> {
        self.values@[c]
    }

    fn may_get_column_ref(&self, c: usize) -> (r: Option<&Option<Value>>) {
        match &self.values[c] {
            Some(v) => Some(v),
            None => None,
        }
    }
}

impl MayGetColumn for Option<Model> {
    open spec fn has_slot(&self, c: int) -> bool {
        match self {
            Some(m) => 0 <= c < m.values@.len(),
            None => true,
        }
    }

    open spec fn slot_value(&self, c: int) -> Option<Option<Value>> {
        match self {
            Some(m) => Some(m.values@[c]),
            None => None,
        }
    }

    fn may_get_column_ref(&self, c: usize) -> (r: Option<&Option<Value>>) {
        match self {
            Some(m) => Some(m.get_column_ref(c)),
            None => None,
        }
    }
}

/// Failable getter of a column with the column given at the call.
pub trait MayGetColumnExt: MayGetColumn {
    /// Returns the value of column `c`, if set.
    fn may_get_column_value(&self, c: usize) -> (r: Option<Option<Value>>)
        requires
            self.has_slot(c as int),
        ensures
            r == self.slot_value(c as int),
    {
        self.may_get_column(c)
    }
}

impl<T: MayGetColumn> MayGetColumnExt for T {}

/// The values of columns `cols` of a record.
pub open spec fn nested_values(values: Seq<Option<Value>>, cols: Seq<usize>) -> Seq<Option<Value>> {
    cols.map_values(|c: usize| values[c as int])
}

/// Trait indicating a record can get multiple columns.
pub trait GetNestedColumns: View<V = crate::model::ModelView> {
    /// Returns the values of columns `cols`, in order.
    fn get_nested_columns(&self, cols: &Vec<usize>) -> (r: Vec<Option<Value>>)
        requires
            forall|i: int| 0 <= i < cols@.len() ==> cols@[i] < self@.values.len(),
        ensures
            r@ == nested_values(self@.values, cols@),
    ;
}

impl GetNestedColumns for Model {
    fn get_nested_columns(&self, cols: &Vec<usize>) -> (r: Vec<Option<Value>>) {
        let mut out: Vec<Option<Value>> = Vec::new();
        let mut i: usize = 0;
        while i < cols.len()
            invariant
                i <= cols@.len(),
                forall|j: int| 0 <= j < cols@.len() ==> cols@[j] < self@.values.len(),
                out@ == nested_values(self@.values, cols@.take(i as int)),
            decreases cols.len() - i,
        {
            out.push(self.values[cols[i]]);
            assert(nested_values(self@.values, cols@.take(i + 1)) == nested_values(
                self@.values,
                cols@.take(i as int),
            ).push(self@.values[cols@[i as int] as int]));
            i += 1;
        }
        assert(cols@.take(cols@.len() as int) == cols@);
        out
    }
}

/// The slots of columns `cols` of insertable values.
pub open spec fn nested_slots(slots: Seq<Option<Option<Value>>>, cols: Seq<usize>) -> Seq<Option<Option<Value>>> {
    cols.map_values(|c: usize| slots[c as int])
}

/// Trait indicating insertable values which may get multiple columns.
pub trait MayGetNestedColumns: View<V = NewValuesView> {
    /// Returns the slots of columns `cols`, in order.
    fn may_get_nested_columns(&self, cols: &Vec<usize>) -> (r: Vec<Option<Option<Value>>>)
        requires
            forall|i: int| 0 <= i < cols@.len() ==> cols@[i] < self@.slots.len(),
        ensures
            r@ == nested_slots(self@.slots, cols@),
    ;
}

impl MayGetNestedColumns for InsertableModel {
    fn may_get_nested_columns(&self, cols: &Vec<usize>) -> (r: Vec<Option<Option<Value>>>) {
        let mut out: Vec<Option<Option<Value>>> = Vec::new();
        let mut i: usize = 0;
        while i < cols.len()
            invariant
                i <= cols@.len(),
                forall|j: int| 0 <= j < cols@.len() ==> cols@[j] < self@.slots.len(),
                out@ == nested_slots(self@.slots, cols@.take(i as int)),
            decreases cols.len() - i,
        {
            out.push(self.values[cols[i]]);
            assert(nested_slots(self@.slots, cols@.take(i + 1)) == nested_slots(
                self@.slots,
                cols@.take(i as int),
            ).push(self@.slots[cols@[i as int] as int]));
            i += 1;
        }
        assert(cols@.take(cols@.len() as int) == cols@);
        out
    }
}

/// Trait indicating insertable values can set multiple columns.
pub trait SetNestedColumns: View<V = NewValuesView> {
    /// Sets `cols[i]` to `vals[i]` for each `i`, in order.
    fn set_nested_columns(&mut self, schema: &Schema, cols: &Vec<usize>, vals: &Vec<Option<Value>>)
        requires
            new_values_wf(*schema, old(self)@),
            values_fit(*schema, old(self)@.table, cols@, vals@),
        ensures
            final(self)@.table == old(self)@.table,
            final(self)@.slots == set_all(old(self)@.slots, cols@, vals@),
            new_values_wf(*schema, final(self)@),
    ;
}

impl SetNestedColumns for InsertableModel {
    fn set_nested_columns(&mut self, schema: &Schema, cols: &Vec<usize>, vals: &Vec<Option<Value>>) {
        let ghost orig = self@;
        let mut i: usize = 0;
        while i < cols.len()
            invariant
                i <= cols@.len(),
                values_fit(*schema, orig.table, cols@, vals@),
                new_values_wf(*schema, orig),
                self@.table == orig.table,
                self@.slots == set_all(orig.slots, cols@.take(i as int), vals@.take(i as int)),
            decreases cols.len() - i,
        {
            proof {
                lemma_set_all_wf(*schema, orig, cols@.take(i as int), vals@.take(i as int));
                assert(cols@.take(i + 1).drop_last() == cols@.take(i as int));
                assert(vals@.take(i + 1).drop_last() == vals@.take(i as int));
                assert(schema.has_column(orig.table, cols@[i as int] as int));
            }
            self.values.set(cols[i], Some(vals[i]));
            i += 1;
        }
        proof {
            assert(cols@.take(cols@.len() as int) == cols@);
            assert(vals@.take(cols@.len() as int) == vals@);
            lemma_set_all_wf(*schema, orig, cols@, vals@);
        }
    }
}

/// Trait indicating insertable values which may set multiple columns.
pub trait MaySetColumns: View<V = NewValuesView> {
    /// Sets `cols[i]` to the value in `vals[i]` for each `i` where there is
    /// one, in order.
    fn may_set_nested_columns(
        &mut self,
        schema: &Schema,
        cols: &Vec<usize>,
        vals: &Vec<Option<Option<Value>>>,
    )
        requires
            new_values_wf(*schema, old(self)@),
            may_values_fit(*schema, old(self)@.table, cols@, vals@),
        ensures
            final(self)@.table == old(self)@.table,
            final(self)@.slots == may_set_all(old(self)@.slots, cols@, vals@),
            new_values_wf(*schema, final(self)@),
    ;
}

impl MaySetColumns for InsertableModel {
    fn may_set_nested_columns(
        &mut self,
        schema: &Schema,
        cols: &Vec<usize>,
        vals: &Vec<Option<Option<Value>>>,
    ) {
        let ghost orig = self@;
        let mut i: usize = 0;
        while i < cols.len()
            invariant
                i <= cols@.len(),
                may_values_fit(*schema, orig.table, cols@, vals@),
                new_values_wf(*schema, orig),
                self@.table == orig.table,
                self@.slots == may_set_all(orig.slots, cols@.take(i as int), vals@.take(i as int)),
            decreases cols.len() - i,
        {
            proof {
                lemma_may_set_all_wf(*schema, orig, cols@.take(i as int), vals@.take(i as int));
                assert(cols@.take(i + 1).drop_last() == cols@.take(i as int));
                assert(vals@.take(i + 1).drop_last() == vals@.take(i as int));
                assert(schema.has_column(orig.table, cols@[i as int] as int));
            }
            match vals[i] {
                Some(v) => {
                    self.values.set(cols[i], Some(v));
                },
                None => {},
            }
            i += 1;
        }
        proof {
            assert(cols@.take(cols@.len() as int) == cols@);
            assert(vals@.take(cols@.len() as int) == vals@);
            lemma_may_set_all_wf(*schema, orig, cols@, vals@);
        }
    }
}

/// Trait indicating insertable values can validate multiple columns.
pub trait ValidateNestedColumns: View<V = NewValuesView> {
    /// Validates the values `vals` of columns `cols`, in order, stopping at
    /// the first refused value.
    fn validate_nested_columns(&self, schema: &Schema, cols: &Vec<usize>, vals: &Vec<Option<Value>>) -> (r:
        Result<(), ValidationError>)
        requires
            new_values_wf(*schema, self@),
            values_fit(*schema, self@.table, cols@, vals@),
        ensures
            r is Ok <==> all_pass(*schema, self@.table, cols@, vals@, cols@.len() as int),
            r matches Err(e) ==> exists|k: int|
                #[trigger] first_failure(*schema, self@.table, cols@, vals@, k) && e == column_error(
                    *schema,
                    self@.table,
                    cols@[k] as int,
                ),
    ;
}

impl ValidateNestedColumns for InsertableModel {
    fn validate_nested_columns(&self, schema: &Schema, cols: &Vec<usize>, vals: &Vec<Option<Value>>) -> (r:
        Result<(), ValidationError>) {
        let mut i: usize = 0;
        while i < cols.len()
            invariant
                i <= cols@.len(),
                values_fit(*schema, self@.table, cols@, vals@),
                all_pass(*schema, self@.table, cols@, vals@, i as int),
            decreases cols.len() - i,
        {
            assert(schema.has_column(self@.table, cols@[i as int] as int));
            match validate_value(schema, self.table, cols[i], &vals[i]) {
                Err(e) => {
                    assert(first_failure(*schema, self@.table, cols@, vals@, i as int));
                    return Err(e);
                },
                Ok(()) => {},
            }
            i += 1;
        }
        Ok(())
    }
}

/// Trait indicating insertable values can validate multiple optional
/// columns.
pub trait MayValidateNestedColumns: View<V = NewValuesView> {
    /// Validates the present values of `vals` for columns `cols`, in order,
    /// stopping at the first refused value.
    fn may_validate_nested_columns(
        &self,
        schema: &Schema,
        cols: &Vec<usize>,
        vals: &Vec<Option<Option<Value>>>,
    ) -> (r: Result<(), ValidationError>)
        requires
            new_values_wf(*schema, self@),
            may_values_fit(*schema, self@.table, cols@, vals@),
        ensures
            r is Ok <==> all_may_pass(*schema, self@.table, cols@, vals@, cols@.len() as int),
            r matches Err(e) ==> exists|k: int|
                #[trigger] first_may_failure(*schema, self@.table, cols@, vals@, k) && e
                    == column_error(*schema, self@.table, cols@[k] as int),
    ;
}

impl MayValidateNestedColumns for InsertableModel {
    fn may_validate_nested_columns(
        &self,
        schema: &Schema,
        cols: &Vec<usize>,
        vals: &Vec<Option<Option<Value>>>,
    ) -> (r: Result<(), ValidationError>) {
        let mut i: usize = 0;
        while i < cols.len()
            invariant
                i <= cols@.len(),
                may_values_fit(*schema, self@.table, cols@, vals@),
                all_may_pass(*schema, self@.table, cols@, vals@, i as int),
            decreases cols.len() - i,
        {
            assert(schema.has_column(self@.table, cols@[i as int] as int));
            match &vals[i] {
                Some(v) => {
                    match validate_value(schema, self.table, cols[i], v) {
                        Err(e) => {
                            assert(first_may_failure(*schema, self@.table, cols@, vals@, i as int));
                            return Err(e);
                        },
                        Ok(()) => {},
                    }
                },
                None => {},
            }
            i += 1;
        }
        Ok(())
    }
}

} // verus!

verus! {

/// Trait indicating insertable values can fallibly set multiple columns.
pub trait TrySetNestedColumns: View<V = NewValuesView> {
    /// Sets `cols[i]` to `vals[i]` for each `i`, in order, validating each
    /// value first; stops at the first refused value, keeping the columns set
    /// before it.
    fn try_set_nested_columns(&mut self, schema: &Schema, cols: &Vec<usize>, vals: &Vec<Option<Value>>) -> (r:
        Result<(), ValidationError>)
        requires
            new_values_wf(*schema, old(self)@),
            values_fit(*schema, old(self)@.table, cols@, vals@),
        ensures
            final(self)@.table == old(self)@.table,
            new_values_wf(*schema, final(self)@),
            r is Ok <==> all_pass(*schema, old(self)@.table, cols@, vals@, cols@.len() as int),
            r is Ok ==> final(self)@.slots == set_all(old(self)@.slots, cols@, vals@),
            r matches Err(e) ==> exists|k: int|
                #[trigger] first_failure(*schema, old(self)@.table, cols@, vals@, k) && e
                    == column_error(*schema, old(self)@.table, cols@[k] as int) && final(self)@.slots
                    == set_all(old(self)@.slots, cols@.take(k), vals@.take(k)),
    ;
}

impl TrySetNestedColumns for InsertableModel {
    fn try_set_nested_columns(&mut self, schema: &Schema, cols: &Vec<usize>, vals: &Vec<Option<Value>>) -> (r:
        Result<(), ValidationError>) {
        let ghost orig = self@;
        let mut i: usize = 0;
        while i < cols.len()
            invariant
                i <= cols@.len(),
                orig == old(self)@,
                values_fit(*schema, orig.table, cols@, vals@),
                new_values_wf(*schema, orig),
                new_values_wf(*schema, self@),
                self@.table == orig.table,
                self@.slots == set_all(orig.slots, cols@.take(i as int), vals@.take(i as int)),
                all_pass(*schema, orig.table, cols@, vals@, i as int),
            decreases cols.len() - i,
        {
            proof {
                assert(cols@.take(i + 1).drop_last() == cols@.take(i as int));
                assert(vals@.take(i + 1).drop_last() == vals@.take(i as int));
                assert(schema.has_column(orig.table, cols@[i as int] as int));
            }
            match validate_value(schema, self.table, cols[i], &vals[i]) {
                Err(e) => {
                    assert(first_failure(*schema, orig.table, cols@, vals@, i as int));
                    return Err(e);
                },
                Ok(()) => {},
            }
            self.values.set(cols[i], Some(vals[i]));
            proof {
                lemma_set_all_wf(*schema, orig, cols@.take(i + 1), vals@.take(i + 1));
            }
            i += 1;
        }
        proof {
            assert(cols@.take(cols@.len() as int) == cols@);
            assert(vals@.take(cols@.len() as int) == vals@);
        }
        Ok(())
    }
}

/// Trait indicating insertable values which may try to set multiple
/// columns.
pub trait TryMaySetNestedColumns: View<V = NewValuesView> {
    /// Sets `cols[i]` to the value in `vals[i]` for each `i` where there is
    /// one, in order, validating each value first; stops at the first
    /// refused value, keeping the columns set before it.
    fn try_may_set_nested_columns(
        &mut self,
        schema: &Schema,
        cols: &Vec<usize>,
        vals: &Vec<Option<Option<Value>>>,
    ) -> (r: Result<(), ValidationError>)
        requires
            new_values_wf(*schema, old(self)@),
            may_values_fit(*schema, old(self)@.table, cols@, vals@),
        ensures
            final(self)@.table == old(self)@.table,
            new_values_wf(*schema, final(self)@),
            r is Ok <==> all_may_pass(*schema, old(self)@.table, cols@, vals@, cols@.len() as int),
            r is Ok ==> final(self)@.slots == may_set_all(old(self)@.slots, cols@, vals@),
            r matches Err(e) ==> exists|k: int|
                #[trigger] first_may_failure(*schema, old(self)@.table, cols@, vals@, k) && e
                    == column_error(*schema, old(self)@.table, cols@[k] as int) && final(self)@.slots
                    == may_set_all(old(self)@.slots, cols@.take(k), vals@.take(k)),
    ;
}

impl TryMaySetNestedColumns for InsertableModel {
    fn try_may_set_nested_columns(
        &mut self,
        schema: &Schema,
        cols: &Vec<usize>,
        vals: &Vec<Option<Option<Value>>>,
    ) -> (r: Result<(), ValidationError>) {
        let ghost orig = self@;
        let mut i: usize = 0;
        while i < cols.len()
            invariant
                i <= cols@.len(),
                orig == old(self)@,
                may_values_fit(*schema, orig.table, cols@, vals@),
                new_values_wf(*schema, orig),
                new_values_wf(*schema, self@),
                self@.table == orig.table,
                self@.slots == may_set_all(orig.slots, cols@.take(i as int), vals@.take(i as int)),
                all_may_pass(*schema, orig.table, cols@, vals@, i as int),
            decreases cols.len() - i,
        {
            proof {
                assert(cols@.take(i + 1).drop_last() == cols@.take(i as int));
                assert(vals@.take(i + 1).drop_last() == vals@.take(i as int));
                assert(schema.has_column(orig.table, cols@[i as int] as int));
            }
            match vals[i] {
                Some(v) => {
                    match validate_value(schema, self.table, cols[i], &v) {
                        Err(e) => {
                            assert(first_may_failure(*schema, orig.table, cols@, vals@, i as int));
                            return Err(e);
                        },
                        Ok(()) => {},
                    }
                    self.values.set(cols[i], Some(v));
                },
                None => {},
            }
            proof {
                lemma_may_set_all_wf(*schema, orig, cols@.take(i + 1), vals@.take(i + 1));
            }
            i += 1;
        }
        proof {
            assert(cols@.take(cols@.len() as int) == cols@);
            assert(vals@.take(cols@.len() as int) == vals@);
        }
        Ok(())
    }
}

/// The columns of a collection of column groups, group after group.
pub open spec fn flatten_columns(groups: Seq<(Vec<usize>, Vec<Option<Value>>)>) -> Seq<usize>
    decreases groups.len(),
{
    if groups.len() == 0 {
        Seq::empty()
    } else {
        flatten_columns(groups.drop_last()) + groups.last().0@
    }
}

/// The values of a collection of column groups, group after group.
pub open spec fn flatten_values(groups: Seq<(Vec<usize>, Vec<Option<Value>>)>) -> Seq<Option<Value>>
    decreases groups.len(),
{
    if groups.len() == 0 {
        Seq::empty()
    } else {
        flatten_values(groups.drop_last()) + groups.last().1@
    }
}

/// Returns all columns and values of `groups`, group after group.
pub fn flatten_groups(groups: &Vec<(Vec<usize>, Vec<Option<Value>>)>) -> (r: (Vec<usize>, Vec<Option<Value>>))
    ensures
        r.0@ == flatten_columns(groups@),
        r.1@ == flatten_values(groups@),
{
    let mut cols: Vec<usize> = Vec::new();
    let mut vals: Vec<Option<Value>> = Vec::new();
    let mut i: usize = 0;
    while i < groups.len()
        invariant
            i <= groups@.len(),
            cols@ == flatten_columns(groups@.take(i as int)),
            vals@ == flatten_values(groups@.take(i as int)),
        decreases groups.len() - i,
    {
        let group = &groups[i];
        let ghost before_cols = cols@;
        let ghost before_vals = vals@;
        let mut j: usize = 0;
        while j < group.0.len()
            invariant
                j <= group.0@.len(),
                cols@ == before_cols + group.0@.take(j as int),
            decreases group.0.len() - j,
        {
            cols.push(group.0[j]);
            assert(group.0@.take(j + 1) == group.0@.take(j as int).push(group.0@[j as int]));
            j += 1;
        }
        let mut j: usize = 0;
        while j < group.1.len()
            invariant
                j <= group.1@.len(),
                vals@ == before_vals + group.1@.take(j as int),
            decreases group.1.len() - j,
        {
            vals.push(group.1[j]);
            assert(group.1@.take(j + 1) == group.1@.take(j as int).push(group.1@[j as int]));
            j += 1;
        }
        assert(group.0@.take(group.0@.len() as int) == group.0@);
        assert(group.1@.take(group.1@.len() as int) == group.1@);
        assert(groups@.take(i + 1).drop_last() == groups@.take(i as int));
        i += 1;
    }
    assert(groups@.take(groups@.len() as int) == groups@);
    (cols, vals)
}

/// Trait indicating insertable values can fallibly set a collection of
/// column groups.
pub trait TrySetColumnsCollection: TrySetNestedColumns {
    /// Sets each group of columns to its values, group after group, with the
    /// outcome of setting all the columns of the groups in order.
    fn try_set_nested_columns_collection(
        &mut self,
        schema: &Schema,
        groups: &Vec<(Vec<usize>, Vec<Option<Value>>)>,
    ) -> (r: Result<(), ValidationError>)
        requires
            new_values_wf(*schema, old(self)@),
            values_fit(*schema, old(self)@.table, flatten_columns(groups@), flatten_values(groups@)),
        ensures
            final(self)@.table == old(self)@.table,
            new_values_wf(*schema, final(self)@),
            ({
                let cols = flatten_columns(groups@);
                let vals = flatten_values(groups@);
                &&& r is Ok <==> all_pass(*schema, old(self)@.table, cols, vals, cols.len() as int)
                &&& r is Ok ==> final(self)@.slots == set_all(old(self)@.slots, cols, vals)
                &&& r matches Err(e) ==> exists|k: int|
                    #[trigger] first_failure(*schema, old(self)@.table, cols, vals, k) && e
                        == column_error(*schema, old(self)@.table, cols[k] as int)
                        && final(self)@.slots == set_all(old(self)@.slots, cols.take(k), vals.take(k))
            }),
    {
        let (cols, vals) = flatten_groups(groups);
        self.try_set_nested_columns(schema, &cols, &vals)
    }
}

impl TrySetColumnsCollection for InsertableModel {}

/// Whether column `j` is one of `cols`.
pub open spec fn col_in(cols: Seq<usize>, j: int) -> bool {
    exists|w: int| 0 <= w < cols.len() && cols[w] as int == j
}

/// The slots after setting every column of `cols` to `v`.
pub open spec fn set_same(
    slots: Seq<Option<Option<Value>>>,
    cols: Seq<usize>,
    v: Option<Value>,
) -> Seq<Option<Option<Value>>> {
    Seq::new(slots.len(), |j: int| if col_in(cols, j) { Some(v) } else { slots[j] })
}

/// Trait indicating insertable values can set multiple columns to one
/// value.
pub trait SetHomogeneousNestedColumns: View<V = NewValuesView> {
    /// Sets every column of `cols` to `value`, unless `value` is `NULL`, in
    /// which case nothing changes.
    fn set_homogeneous_nested_columns(&mut self, schema: &Schema, cols: &Vec<usize>, value: Option<Value>)
        requires
            new_values_wf(*schema, old(self)@),
            columns_of(*schema, old(self)@.table, cols@),
            value is Some ==> forall|i: int|
                #![trigger cols@[i]]
                0 <= i < cols@.len() ==> crate::schema::fits(
                    schema.column(old(self)@.table, cols@[i] as int),
                    value,
                ),
        ensures
            final(self)@.table == old(self)@.table,
            new_values_wf(*schema, final(self)@),
            value is None ==> final(self)@ == old(self)@,
            value is Some ==> final(self)@.slots == set_same(old(self)@.slots, cols@, value),
    ;
}

impl SetHomogeneousNestedColumns for InsertableModel {
    fn set_homogeneous_nested_columns(&mut self, schema: &Schema, cols: &Vec<usize>, value: Option<Value>) {
        if value.is_none() {
            return ;
        }
        let ghost orig = self@;
        let mut i: usize = cols.len();
        while i > 0
            invariant
                i <= cols@.len(),
                value is Some,
                columns_of(*schema, orig.table, cols@),
                forall|i: int|
                    #![trigger cols@[i]]
                    0 <= i < cols@.len() ==> crate::schema::fits(
                        schema.column(orig.table, cols@[i] as int),
                        value,
                    ),
                new_values_wf(*schema, orig),
                new_values_wf(*schema, self@),
                self@.table == orig.table,
                self@.slots == set_same(orig.slots, cols@.subrange(i as int, cols@.len() as int), value),
            decreases i,
        {
            i -= 1;
            assert(schema.has_column(orig.table, cols@[i as int] as int));
            self.values.set(cols[i], Some(value));
            assert(self@.slots =~= set_same(orig.slots, cols@.subrange(i as int, cols@.len() as int), value)) by {
                assert forall|j: int| 0 <= j < orig.slots.len() implies self@.slots[j] == set_same(
                    orig.slots,
                    cols@.subrange(i as int, cols@.len() as int),
                    value,
                )[j] by {
                    let sub = cols@.subrange(i as int, cols@.len() as int);
                    let sub1 = cols@.subrange(i + 1, cols@.len() as int);
                    if j == cols@[i as int] as int {
                        assert(sub[0] == cols@[i as int]);
                        assert(col_in(sub, j));
                    } else {
                        if col_in(sub, j) {
                            let w = choose|w: int| 0 <= w < sub.len() && sub[w] as int == j;
                            assert(w != 0);
                            assert(sub1[w - 1] == sub[w]);
                            assert(col_in(sub1, j));
                        }
                        if col_in(sub1, j) {
                            let w = choose|w: int| 0 <= w < sub1.len() && sub1[w] as int == j;
                            assert(sub[w + 1] == sub1[w]);
                            assert(col_in(sub, j));
                        }
                    }
                }
            }
        }
        assert(cols@.subrange(0, cols@.len() as int) == cols@);
    }
}

} // verus!

verus! {

/// Whether `k` is the last position of `cols` whose column refuses `v`.
pub open spec fn last_failure(s: Schema, t: int, cols: Seq<usize>, v: Option<Value>, k: int) -> bool {
    &&& 0 <= k < cols.len()
    &&& !check_ok(s, t, cols[k] as int, v)
    &&& forall|i: int| #![trigger cols[i]] k < i < cols.len() ==> check_ok(s, t, cols[i] as int, v)
}

/// Trait indicating insertable values can fallibly set multiple columns to
/// one value.
pub trait TrySetHomogeneousNestedColumns: View<V = NewValuesView> {
    /// Sets every column of `cols` to `value`, from the last column to the
    /// first, validating each first; stops at the first refused column,
    /// keeping the columns set before it. A `NULL` value changes nothing.
    fn try_set_homogeneous_nested_columns(
        &mut self,
        schema: &Schema,
        cols: &Vec<usize>,
        value: Option<Value>,
    ) -> (r: Result<(), ValidationError>)
        requires
            new_values_wf(*schema, old(self)@),
            columns_of(*schema, old(self)@.table, cols@),
            value is Some ==> forall|i: int|
                #![trigger cols@[i]]
                0 <= i < cols@.len() ==> crate::schema::fits(
                    schema.column(old(self)@.table, cols@[i] as int),
                    value,
                ),
        ensures
            final(self)@.table == old(self)@.table,
            new_values_wf(*schema, final(self)@),
            value is None ==> r is Ok && final(self)@ == old(self)@,
            value is Some ==> {
                &&& r is Ok <==> forall|i: int|
                    #![trigger cols@[i]]
                    0 <= i < cols@.len() ==> check_ok(*schema, old(self)@.table, cols@[i] as int, value)
                &&& r is Ok ==> final(self)@.slots == set_same(old(self)@.slots, cols@, value)
                &&& r matches Err(e) ==> exists|k: int|
                    #[trigger] last_failure(*schema, old(self)@.table, cols@, value, k) && e
                        == column_error(*schema, old(self)@.table, cols@[k] as int)
                        && final(self)@.slots == set_same(
                        old(self)@.slots,
                        cols@.subrange(k + 1, cols@.len() as int),
                        value,
                    )
            },
    ;
}

impl TrySetHomogeneousNestedColumns for InsertableModel {
    fn try_set_homogeneous_nested_columns(
        &mut self,
        schema: &Schema,
        cols: &Vec<usize>,
        value: Option<Value>,
    ) -> (r: Result<(), ValidationError>) {
        if value.is_none() {
            return Ok(());
        }
        let ghost orig = self@;
        let mut i: usize = cols.len();
        while i > 0
            invariant
                i <= cols@.len(),
                orig == old(self)@,
                value is Some,
                columns_of(*schema, orig.table, cols@),
                forall|i: int|
                    #![trigger cols@[i]]
                    0 <= i < cols@.len() ==> crate::schema::fits(
                        schema.column(orig.table, cols@[i] as int),
                        value,
                    ),
                new_values_wf(*schema, orig),
                new_values_wf(*schema, self@),
                self@.table == orig.table,
                self@.slots == set_same(orig.slots, cols@.subrange(i as int, cols@.len() as int), value),
                forall|j: int|
                    #![trigger cols@[j]]
                    i <= j < cols@.len() ==> check_ok(*schema, orig.table, cols@[j] as int, value),
            decreases i,
        {
            i -= 1;
            assert(schema.has_column(orig.table, cols@[i as int] as int));
            match validate_value(schema, self.table, cols[i], &value) {
                Err(e) => {
                    assert(last_failure(*schema, orig.table, cols@, value, i as int));
                    return Err(e);
                },
                Ok(()) => {},
            }
            self.values.set(cols[i], Some(value));
            assert(self@.slots =~= set_same(orig.slots, cols@.subrange(i as int, cols@.len() as int), value)) by {
                assert forall|j: int| 0 <= j < orig.slots.len() implies self@.slots[j] == set_same(
                    orig.slots,
                    cols@.subrange(i as int, cols@.len() as int),
                    value,
                )[j] by {
                    let sub = cols@.subrange(i as int, cols@.len() as int);
                    let sub1 = cols@.subrange(i + 1, cols@.len() as int);
                    if j == cols@[i as int] as int {
                        assert(sub[0] == cols@[i as int]);
                        assert(col_in(sub, j));
                    } else {
                        if col_in(sub, j) {
                            let w = choose|w: int| 0 <= w < sub.len() && sub[w] as int == j;
                            assert(w != 0);
                            assert(sub1[w - 1] == sub[w]);
                            assert(col_in(sub1, j));
                        }
                        if col_in(sub1, j) {
                            let w = choose|w: int| 0 <= w < sub1.len() && sub1[w] as int == j;
                            assert(sub[w + 1] == sub1[w]);
                            assert(col_in(sub, j));
                        }
                    }
                }
            }
        }
        assert(cols@.subrange(0, cols@.len() as int) == cols@);
        Ok(())
    }
}

/// The columns of a collection of column groups, group after group.
pub open spec fn flatten_column_groups(groups: Seq<Vec<usize>>) -> Seq<usize>
    decreases groups.len(),
{
    if groups.len() == 0 {
        Seq::empty()
    } else {
        flatten_column_groups(groups.drop_last()) + groups.last()@
    }
}

/// The sequence holding `v` `n` times.
pub open spec fn replicate(v: Option<Value>, n: nat) -> Seq<Option<Value>> {
    Seq::new(n, |i: int| v)
}

/// Trait indicating insertable values can try to set every column of a
/// collection of column groups to one value.
pub trait TrySetHomogeneousNestedColumnsCollection: TrySetNestedColumns {
    /// Sets every column of every group to `value`, group after group, with
    /// the outcome of setting all the columns of the groups in order.
    fn try_set_homogeneous_nested_columns_collection(
        &mut self,
        schema: &Schema,
        groups: &Vec<Vec<usize>>,
        value: Option<Value>,
    ) -> (r: Result<(), ValidationError>)
        requires
            new_values_wf(*schema, old(self)@),
            values_fit(
                *schema,
                old(self)@.table,
                flatten_column_groups(groups@),
                replicate(value, flatten_column_groups(groups@).len()),
            ),
        ensures
            final(self)@.table == old(self)@.table,
            new_values_wf(*schema, final(self)@),
            ({
                let cols = flatten_column_groups(groups@);
                let vals = replicate(value, cols.len());
                &&& r is Ok <==> all_pass(*schema, old(self)@.table, cols, vals, cols.len() as int)
                &&& r is Ok ==> final(self)@.slots == set_all(old(self)@.slots, cols, vals)
                &&& r matches Err(e) ==> exists|k: int|
                    #[trigger] first_failure(*schema, old(self)@.table, cols, vals, k) && e
                        == column_error(*schema, old(self)@.table, cols[k] as int)
                        && final(self)@.slots == set_all(old(self)@.slots, cols.take(k), vals.take(k))
            }),
    {
        let mut cols: Vec<usize> = Vec::new();
        let mut i: usize = 0;
        while i < groups.len()
            invariant
                i <= groups@.len(),
                cols@ == flatten_column_groups(groups@.take(i as int)),
            decreases groups.len() - i,
        {
            let group = &groups[i];
            let ghost before = cols@;
            let mut j: usize = 0;
            while j < group.len()
                invariant
                    j <= group@.len(),
                    cols@ == before + group@.take(j as int),
                decreases group.len() - j,
            {
                cols.push(group[j]);
                assert(group@.take(j + 1) == group@.take(j as int).push(group@[j as int]));
                j += 1;
            }
            assert(group@.take(group@.len() as int) == group@);
            assert(groups@.take(i + 1).drop_last() == groups@.take(i as int));
            i += 1;
        }
        assert(groups@.take(groups@.len() as int) == groups@);
        let mut vals: Vec<Option<Value>> = Vec::new();
        let mut j: usize = 0;
        while j < cols.len()
            invariant
                j <= cols@.len(),
                vals@ == replicate(value, j as nat),
            decreases cols.len() - j,
        {
            vals.push(value);
            assert(vals@ =~= replicate(value, (j + 1) as nat));
            j += 1;
        }
        self.try_set_nested_columns(schema, &cols, &vals)
    }
}

impl TrySetHomogeneousNestedColumnsCollection for InsertableModel {}

/// Trait representing the insertable record of a table.
pub trait InsertableTableModel: View<V = NewValuesView> + Sized {
    /// Returns the insertable record a new builder of table `t` starts with.
    fn default_values(schema: &Schema, t: usize) -> (r: Self)
        requires
            schema.has_table(t as int),
        ensures
            r@.table == t,
            r@.slots == crate::model::default_slots(*schema, t as int),
    ;

    /// Returns the table of the record.
    fn table_index(&self) -> (r: usize)
        ensures
            r as int == self@.table,
    ;
}

impl InsertableTableModel for InsertableModel {
    fn default_values(schema: &Schema, t: usize) -> (r: Self) {
        InsertableModel::new(schema, t)
    }

    fn table_index(&self) -> (r: usize) {
        self.table
    }
}

} // verus!
