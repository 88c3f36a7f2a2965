//! Records of several tables handled together: the values of one column
//! per record, the pairing of columns with values, and the completion of
//! insertable values.
use vstd::prelude::*;
use crate::value::Value;
use crate::schema::Schema;
use crate::builder_error::IncompleteBuilderError;
use crate::model::{Model, ModelView, InsertableModel, NewValuesView, new_values_wf, model_wf};

verus! {

/// The value of column `cols[i]` of record `i`, for each `i`.
pub open spec fn tuple_values(models: Seq<Model>, cols: Seq<usize>) -> Seq<Option<Value>> {
    Seq::new(models.len(), |i: int| models[i].values@[cols[i] as int])
}

/// Variant of column getters for a sequence of records, one column each.
pub trait TupleGetNestedColumns {
    /// The records.
    spec fn records(&self) -> Seq<Model>;

    /// Returns the value of column `cols[i]` of record `i`, for each `i`.
    fn tuple_get_nested_columns(&self, cols: &Vec<usize>) -> (r: Vec<Option<Value>>)
        requires
            cols@.len() == self.records().len(),
            forall|i: int|
                #![trigger cols@[i]]
                0 <= i < cols@.len() ==> cols@[i] < self.records()[i].values@.len(),
        ensures
            r@ == tuple_values(self.records(), cols@),
    ;
}

impl TupleGetNestedColumns for Vec<Model> {
    open spec fn records(&self) -> Seq<Model> {
        self@
    }

    fn tuple_get_nested_columns(&self, cols: &Vec<usize>) -> (r: Vec<Option<Value>>) {
        let mut out: Vec<Option<Value>> = Vec::new();
        let mut i: usize = 0;
        while i < cols.len()
            invariant
                i <= cols@.len(),
                cols@.len() == self@.len(),
                forall|i: int|
                    #![trigger cols@[i]]
                    0 <= i < cols@.len() ==> cols@[i] < self@[i].values@.len(),
                out@ == tuple_values(self@, cols@).take(i as int),
            decreases cols.len() - i,
        {
            assert(cols@[i as int] < self@[i as int].values@.len());
            out.push(self[i].values[cols[i]]);
            assert(tuple_values(self@, cols@).take(i + 1) =~= tuple_values(self@, cols@).take(i as int).push(
                self@[i as int].values@[cols@[i as int] as int],
            ));
            i += 1;
        }
        assert(tuple_values(self@, cols@).take(cols@.len() as int) =~= tuple_values(self@, cols@));
        out
    }
}

/// The value of column `cols[i]` of record `i`, where there is a record,
/// for each `i`.
pub open spec fn tuple_may_values(models: Seq<Option<Model>>, cols: Seq<usize>) -> Seq<Option<Option<Value>>> {
    Seq::new(
        models.len(),
        |i: int|
            match models[i] {
                Some(m) => Some(m.values@[cols[i] as int]),
                None => None,
            },
    )
}

/// Variant of column getters for a sequence of optional records, one
/// column each.
pub trait TupleMayGetNestedColumns {
    /// The optional records.
    spec fn may_records(&self) -> Seq<Option<Model>>;

    /// Returns the value of column `cols[i]` of record `i`, where there is a
    /// record, for each `i`.
    fn tuple_may_get_nested_columns(&self, cols: &Vec<usize>) -> (r: Vec<Option<Option<Value>>>)
        requires
            cols@.len() == self.may_records().len(),
            forall|i: int|
                #![trigger cols@[i]]
                0 <= i < cols@.len() ==> match self.may_records()[i] {
                    Some(m) => cols@[i] < m.values@.len(),
                    None => true,
                },
        ensures
            r@ == tuple_may_values(self.may_records(), cols@),
    ;
}

impl TupleMayGetNestedColumns for Vec<Option<Model>> {
    open spec fn may_records(&self) -> Seq<Option<Model>> {
        self@
    }

    fn tuple_may_get_nested_columns(&self, cols: &Vec<usize>) -> (r: Vec<Option<Option<Value>>>) {
        let mut out: Vec<Option<Option<Value>>> = Vec::new();
        let mut i: usize = 0;
        while i < cols.len()
            invariant
                i <= cols@.len(),
                cols@.len() == self@.len(),
                forall|i: int|
                    #![trigger cols@[i]]
                    0 <= i < cols@.len() ==> match self@[i] {
                        Some(m) => cols@[i] < m.values@.len(),
                        None => true,
                    },
                out@ == tuple_may_values(self@, cols@).take(i as int),
            decreases cols.len() - i,
        {
            assert(match self@[i as int] {
                Some(m) => cols@[i as int] < m.values@.len(),
                None => true,
            });
            let v = match &self[i] {
                Some(m) => Some(m.values[cols[i]]),
                None => None,
            };
            out.push(v);
            assert(tuple_may_values(self@, cols@).take(i + 1) =~= tuple_may_values(self@, cols@).take(
                i as int,
            ).push(v));
            i += 1;
        }
        assert(tuple_may_values(self@, cols@).take(cols@.len() as int) =~= tuple_may_values(self@, cols@));
        out
    }
}

/// The pairs of each column with its value.
pub open spec fn paired(cols: Seq<usize>, vals: Seq<Option<Value>>) -> Seq<(usize, Option<Value>)> {
    Seq::new(cols.len(), |i: int| (cols[i], vals[i]))
}

/// Pairing of columns with values, as the assignments of an insertion.
pub trait TupleEqAll: View<V = Seq<usize>> {
    /// Returns each column paired with its value.
    fn eq_all(&self, rhs: &Vec<Option<Value>>) -> (r: Vec<(usize, Option<Value>)>)
        requires
            rhs@.len() == self@.len(),
        ensures
            r@ == paired(self@, rhs@),
    ;
}

impl TupleEqAll for Vec<usize> {
    fn eq_all(&self, rhs: &Vec<Option<Value>>) -> (r: Vec<(usize, Option<Value>)>) {
        let mut out: Vec<(usize, Option<Value>)> = Vec::new();
        let mut i: usize = 0;
        while i < self.len()
            invariant
                i <= self@.len(),
                rhs@.len() == self@.len(),
                out@ == paired(self@, rhs@).take(i as int),
            decreases self.len() - i,
        {
            out.push((self[i], rhs[i]));
            assert(paired(self@, rhs@).take(i + 1) =~= paired(self@, rhs@).take(i as int).push(
                (self@[i as int], rhs@[i as int]),
            ));
            i += 1;
        }
        assert(paired(self@, rhs@).take(self@.len() as int) =~= paired(self@, rhs@));
        out
    }
}

/// Whether `k` is the first unset column.
pub open spec fn first_unset(slots: Seq<Option<Option<Value>>>, k: int) -> bool {
    &&& 0 <= k < slots.len()
    &&& slots[k] is None
    &&& forall|j: int| 0 <= j < k ==> slots[j] is Some
}

/// The values of fully set slots.
pub open spec fn unwrapped(slots: Seq<Option<Option<Value>>>) -> Seq<Option<Value>> {
    Seq::new(slots.len(), |i: int| slots[i]->0)
}

/// The error reporting that column `c` of table `t` is not set.
pub open spec fn missing_field_error(s: Schema, t: int, c: int) -> IncompleteBuilderError {
    IncompleteBuilderError::MissingMandatoryField {
        table_name: s.tables@[t].name,
        field_name: s.column(t, c).name,
    }
}

/// Returns the values of insertable values whose columns are all set, or
/// the error naming the first unset column.
pub fn complete_values(schema: &Schema, nv: &InsertableModel) -> (r: Result<Vec<Option<Value>>, IncompleteBuilderError>)
    requires
        new_values_wf(*schema, nv@),
    ensures
        r is Ok <==> forall|j: int| 0 <= j < nv@.slots.len() ==> nv@.slots[j] is Some,
        r matches Ok(vals) ==> vals@ == unwrapped(nv@.slots),
        r matches Err(e) ==> exists|k: int|
            #[trigger] first_unset(nv@.slots, k) && e == missing_field_error(*schema, nv@.table, k),
{
    let mut out: Vec<Option<Value>> = Vec::new();
    let mut i: usize = 0;
    while i < nv.values.len()
        invariant
            i <= nv@.slots.len(),
            new_values_wf(*schema, nv@),
            forall|j: int| 0 <= j < i ==> nv@.slots[j] is Some,
            out@ == unwrapped(nv@.slots).take(i as int),
        decreases nv.values.len() - i,
    {
        match nv.values[i] {
            Some(v) => {
                out.push(v);
                assert(unwrapped(nv@.slots).take(i + 1) =~= unwrapped(nv@.slots).take(i as int).push(v));
            },
            None => {
                assert(first_unset(nv@.slots, i as int));
                return Err(
                    IncompleteBuilderError::MissingMandatoryField {
                        table_name: schema.tables[nv.table].name,
                        field_name: schema.tables[nv.table].columns[i].name,
                    },
                );
            },
        }
        i += 1;
    }
    assert(unwrapped(nv@.slots).take(nv@.slots.len() as int) =~= unwrapped(nv@.slots));
    Ok(out)
}

} // verus!
