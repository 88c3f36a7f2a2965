//! The records of a table and of its ancestors, one per table, and the
//! record of any of these tables among them.
use vstd::prelude::*;
use crate::value::Value;
use crate::schema::{Schema, is_first_position};
use crate::model::{Model, ModelView, model_wf};
use crate::dynamic_columns::models_view;
use crate::builder_bundle::{table_position, find_position};
use crate::hierarchy::DescendantWithSelf;

verus! {

impl Model {
    /// Returns a record with the same table and values.
    pub fn duplicate(&self) -> (r: Model)
        ensures
            r@ == self@,
    {
        let mut values: Vec<Option<Value>> = Vec::new();
        let mut j: usize = 0;
        while j < self.values.len()
            invariant
                j <= self.values@.len(),
                values@ == self.values@.take(j as int),
            decreases self.values.len() - j,
        {
            values.push(self.values[j]);
            assert(self.values@.take(j + 1) =~= self.values@.take(j as int).push(self.values@[j as int]));
            j += 1;
        }
        assert(self.values@.take(self.values@.len() as int) =~= self.values@);
        Model { table: self.table, values }
    }
}

/// Whether `ms` holds one well-formed record per table of the ancestors of
/// `d` followed by `d`, in that order.
pub open spec fn nested_model_wf(s: Schema, d: int, ms: Seq<ModelView>) -> bool {
    &&& s.has_table(d)
    &&& ms.len() == s.chain(d).len()
    &&& forall|i: int|
        #![trigger ms[i]]
        0 <= i < ms.len() ==> model_wf(s, ms[i]) && ms[i].table == s.chain(d)[i] as int
}

/// The table whose records `ms` are: the table of the last record.
pub open spec fn nested_table(ms: Seq<ModelView>) -> int {
    ms.last().table
}

/// Records of a table and of its ancestors.
pub trait GetModel {
    /// The records, root first.
    spec fn nested_records(&self) -> Seq<ModelView>;

    /// Returns the record of table `a`, which must be the records' table or
    /// one of its ancestors.
    fn get_model_ref(&self, schema: &Schema, a: usize) -> (r: &Model)
        requires
            schema.wf(),
            self.nested_records().len() > 0,
            nested_model_wf(*schema, nested_table(self.nested_records()), self.nested_records()),
            schema.chain(nested_table(self.nested_records())).contains(a),
        ensures
            r@ == self.nested_records()[table_position(*schema, nested_table(self.nested_records()), a as int)],
            r@.table == a,
    ;

    /// Returns a copy of the record of table `a`.
    fn get_model(&self, schema: &Schema, a: usize) -> (r: Model)
        requires
            schema.wf(),
            self.nested_records().len() > 0,
            nested_model_wf(*schema, nested_table(self.nested_records()), self.nested_records()),
            schema.chain(nested_table(self.nested_records())).contains(a),
        ensures
            r@ == self.nested_records()[table_position(*schema, nested_table(self.nested_records()), a as int)],
            r@.table == a,
    {
        self.get_model_ref(schema, a).duplicate()
    }
}

impl GetModel for Vec<Model> {
    open spec fn nested_records(&self) -> Seq<ModelView> {
        models_view(self@)
    }

    fn get_model_ref(&self, schema: &Schema, a: usize) -> (r: &Model) {
        let ghost ms = models_view(self@);
        let ghost d = nested_table(ms);
        let last = self.len() - 1;
        assert(ms[last as int] == self@[last as int]@);
        let d_exec = self[last].table;
        assert(d_exec as int == d);
        match find_position(schema, d_exec, a) {
            Some(p) => {
                assert(ms[p as int] == self@[p as int]@);
                assert(is_first_position(schema.chain(d), a, p as int));
                &self[p]
            },
            None => {
                proof {
                    assert(false);
                }
                &self[0]
            },
        }
    }
}

/// The records of the ancestors of `a` followed by `a`, taken from the
/// records `ms` of a descendant of `a`.
pub open spec fn nested_model_of(s: Schema, ms: Seq<ModelView>, a: int) -> Seq<ModelView> {
    s.chain(a).map_values(|x: usize| ms[table_position(s, nested_table(ms), x as int)])
}

/// Records of a table and of its ancestors, from which the records of any
/// of these tables and of its own ancestors can be taken.
pub trait GetNestedModel: GetModel {
    /// Returns the records of the ancestors of table `a` followed by `a`,
    /// taken from these records; `a` and each of its ancestors must be the
    /// records' table or one of its ancestors.
    fn get_nested_model(&self, schema: &Schema, a: usize) -> (r: Vec<Model>)
        requires
            schema.wf(),
            self.nested_records().len() > 0,
            nested_model_wf(*schema, nested_table(self.nested_records()), self.nested_records()),
            schema.has_table(a as int),
            forall|k: int|
                0 <= k < schema.chain(a as int).len() ==> schema.chain(nested_table(self.nested_records())).contains(
                    #[trigger] schema.chain(a as int)[k],
                ),
        ensures
            models_view(r@) == nested_model_of(*schema, self.nested_records(), a as int),
            nested_model_wf(*schema, a as int, models_view(r@)),
    ;
}

impl GetNestedModel for Vec<Model> {
    fn get_nested_model(&self, schema: &Schema, a: usize) -> (r: Vec<Model>) {
        let ghost ms = models_view(self@);
        let ghost chain_a = schema.chain(a as int);
        let chain = schema.ancestors_with_self(a);
        let mut out: Vec<Model> = Vec::new();
        let mut i: usize = 0;
        while i < chain.len()
            invariant
                i <= chain_a.len(),
                chain_a == schema.chain(a as int),
                chain@ == chain_a,
                ms == models_view(self@),
                ms.len() > 0,
                schema.wf(),
                nested_model_wf(*schema, nested_table(ms), ms),
                forall|k: int| 0 <= k < chain_a.len() ==> schema.chain(nested_table(ms)).contains(#[trigger] chain_a[k]),
                models_view(out@) == nested_model_of(*schema, ms, a as int).take(i as int),
            decreases chain.len() - i,
        {
            let x = chain[i];
            assert(schema.chain(nested_table(ms)).contains(chain_a[i as int]));
            let m = self.get_model(schema, x);
            let ghost before = out@;
            out.push(m);
            assert(models_view(out@) =~= models_view(before).push(m@));
            assert(nested_model_of(*schema, ms, a as int).take(i + 1) =~= nested_model_of(*schema, ms, a as int).take(
                i as int,
            ).push(ms[table_position(*schema, nested_table(ms), x as int)]));
            i += 1;
        }
        assert(nested_model_of(*schema, ms, a as int).take(chain_a.len() as int) =~= nested_model_of(
            *schema,
            ms,
            a as int,
        ));
        proof {
            let r = models_view(out@);
            assert forall|i: int| 0 <= i < r.len() implies model_wf(*schema, #[trigger] r[i]) && r[i].table
                == chain_a[i] as int by {
                let p = table_position(*schema, nested_table(ms), chain_a[i] as int);
                assert(schema.chain(nested_table(ms)).contains(chain_a[i]));
                let w = choose|w: int| 0 <= w < schema.chain(nested_table(ms)).len() && schema.chain(nested_table(ms))[w] == chain_a[i];
                lemma_first_position_exists(schema.chain(nested_table(ms)), chain_a[i], w);
                assert(is_first_position(schema.chain(nested_table(ms)), chain_a[i], p));
                assert(ms[p].table == schema.chain(nested_table(ms))[p] as int);
            }
        }
        out
    }
}

/// An element that occurs in a sequence has a first position.
pub proof fn lemma_first_position_exists(s: Seq<usize>, x: usize, w: int)
    requires
        0 <= w < s.len(),
        s[w] == x,
    ensures
        exists|p: int| is_first_position(s, x, p),
    decreases w,
{
    if exists|q: int| 0 <= q < w && s[q] == x {
        let q = choose|q: int| 0 <= q < w && s[q] == x;
        lemma_first_position_exists(s, x, q);
    } else {
        assert(is_first_position(s, x, w));
    }
}

/// The records of a table and its ancestors, read by table.
pub trait GetModelExt: GetModel {
    /// Returns a copy of the record of table `a`.
    fn model_of(&self, schema: &Schema, a: usize) -> (r: Model)
        requires
            schema.wf(),
            self.nested_records().len() > 0,
            nested_model_wf(*schema, nested_table(self.nested_records()), self.nested_records()),
            schema.chain(nested_table(self.nested_records())).contains(a),
        ensures
            r@ == self.nested_records()[table_position(*schema, nested_table(self.nested_records()), a as int)],
            r@.table == a,
    {
        self.get_model(schema, a)
    }
}

impl<T: GetModel> GetModelExt for T {}

/// The records of a table and its ancestors, read as the records of an
/// ancestor and its own ancestors.
pub trait GetNestedModelExt: GetNestedModel {
    /// Returns the records of the ancestors of table `a` followed by `a`.
    fn nested_model_of_table(&self, schema: &Schema, a: usize) -> (r: Vec<Model>)
        requires
            schema.wf(),
            self.nested_records().len() > 0,
            nested_model_wf(*schema, nested_table(self.nested_records()), self.nested_records()),
            schema.has_table(a as int),
            forall|k: int|
                0 <= k < schema.chain(a as int).len() ==> schema.chain(nested_table(self.nested_records())).contains(
                    #[trigger] schema.chain(a as int)[k],
                ),
        ensures
            models_view(r@) == nested_model_of(*schema, self.nested_records(), a as int),
            nested_model_wf(*schema, a as int, models_view(r@)),
    {
        self.get_nested_model(schema, a)
    }
}

impl<T: GetNestedModel> GetNestedModelExt for T {}

} // verus!
