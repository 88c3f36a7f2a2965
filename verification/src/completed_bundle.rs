//! The build-ready variant of a table builder bundle, in which every
//! mandatory associated builder is present.
use vstd::prelude::*;
use crate::value::Value;
use crate::schema::{Schema, HorizontalKeyDef, fits, same_as_target};
use crate::builder_error::{ValidationError, IncompleteBuilderError};
use crate::model::{InsertableModel, NewValuesView, new_values_wf, check_ok, column_error};
use crate::builder_bundle::{
    TableBuilder, TableBuilderBundle, BuilderView, BundleView, builder_view, opt_builder_view,
    slots_view, builder_wf, slot_wf, bundle_wf, builder_try_set, mandatory_try_set, err_of, nulls_pass, copy_insertable, copy_builder, copy_slots,
};

verus! {

/// The build-ready variant of a table builder bundle.
#[derive(Debug, PartialEq, Eq, Hash, PartialOrd, Ord)]
pub struct CompletedTableBuilderBundle {
    /// The insertable values of the table.
    pub insertable_model: InsertableModel,
    /// The builders of the mandatory triangular same-as keys.
    pub nested_mandatory_associated_builders: Vec<TableBuilder>,
    /// The builders of the discretionary triangular same-as keys, when set.
    pub nested_discretionary_associated_builders: Vec<Option<TableBuilder>>,
}

/// The abstract value of a completed bundle.
pub struct CompletedView {
    /// The insertable values of the table.
    pub model: NewValuesView,
    /// The builders of the mandatory keys.
    pub mandatory: Seq<BuilderView>,
    /// The builders of the discretionary keys.
    pub discretionary: Seq<Option<BuilderView>>,
}

/// The abstract values of a sequence of builders.
pub open spec fn builders_view(v: Seq<TableBuilder>) -> Seq<BuilderView> {
    Seq::new(v.len(), |i: int| builder_view(v[i]))
}

impl View for CompletedTableBuilderBundle {
    type V = CompletedView;

    open spec fn view(&self) -> CompletedView {
        CompletedView {
            model: self.insertable_model@,
            mandatory: builders_view(self.nested_mandatory_associated_builders@),
            discretionary: slots_view(self.nested_discretionary_associated_builders@),
        }
    }
}

/// A well-formed completed bundle of table `t`.
pub open spec fn completed_wf(s: Schema, t: int, cv: CompletedView) -> bool {
    &&& cv.model.table == t
    &&& new_values_wf(s, cv.model)
    &&& cv.mandatory.len() == s.tables@[t].mandatory_keys@.len()
    &&& cv.discretionary.len() == s.tables@[t].discretionary_keys@.len()
    &&& forall|k: int|
        #![trigger cv.mandatory[k]]
        0 <= k < cv.mandatory.len() ==> slot_wf(s, s.tables@[t].mandatory_keys@[k], Some(cv.mandatory[k]))
    &&& forall|k: int|
        #![trigger cv.discretionary[k]]
        0 <= k < cv.discretionary.len() ==> slot_wf(
            s,
            s.tables@[t].discretionary_keys@[k],
            cv.discretionary[k],
        )
}

/// Whether `k` is the first empty slot.
pub open spec fn first_empty(slots: Seq<Option<BuilderView>>, k: int) -> bool {
    &&& 0 <= k < slots.len()
    &&& slots[k] is None
    &&& forall|j: int| 0 <= j < k ==> slots[j] is Some
}

/// The error reporting the missing builder of mandatory key `k` of table
/// `t`.
pub open spec fn missing_builder_error(s: Schema, t: int, k: int) -> IncompleteBuilderError {
    IncompleteBuilderError::MissingMandatoryTriangularField {
        table_name: s.tables@[t].name,
        field_name: s.column(t, s.tables@[t].mandatory_keys@[k].key_column as int).name,
    }
}

impl CompletedTableBuilderBundle {
    /// Completes a bundle: succeeds exactly when every mandatory associated
    /// builder is set, and otherwise reports the key column of the first
    /// missing one.
    pub fn try_from(schema: &Schema, bundle: TableBuilderBundle) -> (r: Result<
        CompletedTableBuilderBundle,
        IncompleteBuilderError,
    >)
        requires
            schema.wf(),
            bundle_wf(*schema, bundle@.model.table, bundle@),
        ensures
            r is Ok <==> forall|k: int| 0 <= k < bundle@.mandatory.len() ==> bundle@.mandatory[k] is Some,
            r matches Ok(cb) ==> {
                &&& cb@.model == bundle@.model
                &&& cb@.discretionary == bundle@.discretionary
                &&& cb@.mandatory.len() == bundle@.mandatory.len()
                &&& forall|k: int|
                    #![trigger cb@.mandatory[k]]
                    0 <= k < cb@.mandatory.len() ==> bundle@.mandatory[k] == Some(cb@.mandatory[k])
                &&& completed_wf(*schema, bundle@.model.table, cb@)
            },
            r matches Err(e) ==> exists|k: int|
                #[trigger] first_empty(bundle@.mandatory, k) && e == missing_builder_error(
                    *schema,
                    bundle@.model.table,
                    k,
                ),
    {
        let ghost orig = bundle@;
        let t = bundle.insertable_model.table;
        let TableBuilderBundle {
            insertable_model,
            nested_mandatory_associated_builders: mut mand,
            nested_discretionary_associated_builders: disc,
        } = bundle;
        let ghost mand0 = mand@;
        proof {
            assert(orig.mandatory =~= slots_view(mand0));
            assert(schema.table_wf(t as int));
        }
        let mut builders: Vec<TableBuilder> = Vec::new();
        let mut k: usize = 0;
        while k < mand.len()
            invariant
                k <= mand@.len(),
                mand@.len() == mand0.len(),
                orig.mandatory == slots_view(mand0),
                orig.mandatory.len() == schema.tables@[t as int].mandatory_keys@.len(),
                forall|j: int| k <= j < mand@.len() ==> mand@[j] == mand0[j],
                builders@.len() == k,
                forall|j: int| 0 <= j < k ==> mand0[j] == Some(#[trigger] builders@[j]),
                t == orig.model.table,
                t < schema.tables@.len(),
                schema.wf(),
                orig == bundle@,
            decreases mand.len() - k,
        {
            let mut slot: Option<TableBuilder> = None;
            std::mem::swap(&mut slot, &mut mand[k]);
            match slot {
                Some(b) => {
                    builders.push(b);
                },
                None => {
                    proof {
                        assert(orig.mandatory[k as int] == opt_builder_view(mand0[k as int]));
                        assert forall|j: int| 0 <= j < k implies orig.mandatory[j] is Some by {
                            assert(mand0[j] == Some(builders@[j]));
                            assert(orig.mandatory[j] == opt_builder_view(mand0[j]));
                        }
                        assert(first_empty(orig.mandatory, k as int));
                    }
                    let key_column = schema.tables[t].mandatory_keys[k].key_column;
                    proof {
                        assert(schema.table_wf(t as int));
                        assert(schema.key_wf(t as int, schema.tables@[t as int].mandatory_keys@[k as int]));
                    }
                    return Err(
                        IncompleteBuilderError::MissingMandatoryTriangularField {
                            table_name: schema.tables[t].name,
                            field_name: schema.tables[t].columns[key_column].name,
                        },
                    );
                },
            }
            k += 1;
        }
        let r = CompletedTableBuilderBundle {
            insertable_model,
            nested_mandatory_associated_builders: builders,
            nested_discretionary_associated_builders: disc,
        };
        proof {
            assert forall|j: int|
                #![trigger orig.mandatory[j]]
                #![trigger r@.mandatory[j]]
                0 <= j < orig.mandatory.len() implies orig.mandatory[j] is Some && orig.mandatory[j] == Some(
                r@.mandatory[j],
            ) by {
                assert(orig.mandatory[j] == opt_builder_view(mand0[j]));
                assert(mand0[j] == Some(builders@[j]));
            }
            assert(r@.discretionary == orig.discretionary);
            assert forall|j: int| 0 <= j < r@.mandatory.len() implies slot_wf(
                *schema,
                schema.tables@[t as int].mandatory_keys@[j],
                Some(#[trigger] r@.mandatory[j]),
            ) by {
                assert(orig.mandatory[j] == Some(r@.mandatory[j]));
                assert(slot_wf(*schema, schema.tables@[t as int].mandatory_keys@[j], orig.mandatory[j]));
            }
        }
        Ok(r)
    }

    /// Returns the table of the bundle.
    pub fn table(&self) -> (r: usize)
        ensures
            r as int == self@.model.table,
    {
        self.insertable_model.table
    }

    /// Returns the validation outcome of value `v` for column `c` of the
    /// bundle's table.
    pub fn validate_column_in_context(&self, schema: &Schema, c: usize, v: &Option<Value>) -> (r: Result<(), ValidationError>)
        requires
            schema.has_column(self@.model.table, c as int),
        ensures
            r is Ok <==> check_ok(*schema, self@.model.table, c as int, *v),
            r matches Err(e) ==> e == column_error(*schema, self@.model.table, c as int),
    {
        crate::model::validate_value(schema, self.insertable_model.table, c, v)
    }
}

} // verus!

verus! {

/// The bundle holding the same values and builders as a completed bundle.
pub open spec fn as_bundle(cv: CompletedView) -> BundleView {
    BundleView {
        model: cv.model,
        mandatory: Seq::new(cv.mandatory.len(), |i: int| Some(cv.mandatory[i])),
        discretionary: cv.discretionary,
    }
}

/// The completed bundle holding the same values and builders as a bundle
/// whose mandatory builders are all set.
pub open spec fn as_completed(bv: BundleView) -> CompletedView {
    CompletedView {
        model: bv.model,
        mandatory: Seq::new(bv.mandatory.len(), |i: int| bv.mandatory[i]->0),
        discretionary: bv.discretionary,
    }
}

/// The outcome of setting column `c` of a completed bundle to `v`, as for a
/// bundle holding the same values and builders.
pub open spec fn completed_try_set(s: Schema, cv: CompletedView, c: int, v: Option<Value>) -> (
    CompletedView,
    Option<ValidationError>,
) {
    let (bv, e) = crate::builder_bundle::bundle_try_set_mode(s, as_bundle(cv), c, v, true);
    (as_completed(bv), e)
}

/// Passing a value on to builders that are all present leaves them all
/// present.
pub proof fn lemma_mandatory_keeps_builders(
    s: Schema,
    slots: Seq<Option<BuilderView>>,
    keys: Seq<HorizontalKeyDef>,
    c: int,
    v: Option<Value>,
    pass_null: bool,
)
    requires
        forall|k: int| 0 <= k < slots.len() ==> slots[k] is Some,
    ensures
        mandatory_try_set(s, slots, keys, c, v, pass_null).0.len() == slots.len(),
        forall|k: int|
            0 <= k < slots.len() ==> (#[trigger] mandatory_try_set(s, slots, keys, c, v, pass_null).0[k]) is Some,
    decreases slots.len(),
{
    if slots.len() > 0 {
        let n = slots.len() - 1;
        lemma_mandatory_keeps_builders(s, slots.take(n), keys.take(n), c, v, pass_null);
        let r = mandatory_try_set(s, slots, keys, c, v, pass_null);
        let h = crate::builder_bundle::slot_try_set(s, slots[n], keys[n], c, v, pass_null);
        assert(h.0 is Some);
        let rest = mandatory_try_set(s, slots.take(n), keys.take(n), c, v, pass_null);
        assert forall|k: int| 0 <= k < slots.len() implies (#[trigger] r.0[k]) is Some by {
            if h.1 is Some {
                assert(r.0 == slots.update(n, h.0));
            } else {
                assert(r.0 == rest.0.push(h.0));
                if k < n {
                    assert(slots.take(n)[k] == slots[k]);
                    assert(rest.0[k] is Some);
                }
            }
        }
    }
}

impl CompletedTableBuilderBundle {
    /// Sets column `c` to `v`: the value is validated, then passed on, `NULL`
    /// included, to the associated builders whose keys host `c`, and finally
    /// stored. Stops at the first refused value. A `NULL` can only be set
    /// where every column it would be passed on to accepts it.
    pub fn try_set_column(&mut self, schema: &Schema, c: usize, v: Option<Value>) -> (r: Result<(), ValidationError>)
        requires
            schema.wf(),
            completed_wf(*schema, old(self)@.model.table, old(self)@),
            schema.has_column(old(self)@.model.table, c as int),
            fits(schema.column(old(self)@.model.table, c as int), v),
            v is None ==> nulls_pass(*schema, schema.tables@[old(self)@.model.table].mandatory_keys@, c)
                && nulls_pass(*schema, schema.tables@[old(self)@.model.table].discretionary_keys@, c),
        ensures
            final(self)@ == completed_try_set(*schema, old(self)@, c as int, v).0,
            err_of(r) == completed_try_set(*schema, old(self)@, c as int, v).1,
            completed_wf(*schema, old(self)@.model.table, final(self)@),
    {
        let ghost orig = self@;
        let t = self.insertable_model.table;
        let mut mand: Vec<TableBuilder> = Vec::new();
        std::mem::swap(&mut mand, &mut self.nested_mandatory_associated_builders);
        let mut disc: Vec<Option<TableBuilder>> = Vec::new();
        std::mem::swap(&mut disc, &mut self.nested_discretionary_associated_builders);
        let mut nv = InsertableModel { table: 0, values: Vec::new() };
        std::mem::swap(&mut nv, &mut self.insertable_model);
        let ghost mand0 = mand@;
        let mut slots: Vec<Option<TableBuilder>> = Vec::new();
        while mand.len() > 0
            invariant
                mand0.len() == slots@.len() + mand@.len(),
                forall|j: int| 0 <= j < slots@.len() ==> slots@[j] == Some(#[trigger] mand0[j]),
                forall|j: int| 0 <= j < mand@.len() ==> mand@[j] == mand0[slots@.len() + j],
            decreases mand.len(),
        {
            let b = mand.remove(0);
            slots.push(Some(b));
        }
        let bundle = TableBuilderBundle {
            insertable_model: nv,
            nested_mandatory_associated_builders: slots,
            nested_discretionary_associated_builders: disc,
        };
        proof {
            assert(bundle@.mandatory =~= as_bundle(orig).mandatory) by {
                assert forall|j: int| 0 <= j < bundle@.mandatory.len() implies bundle@.mandatory[j]
                    == as_bundle(orig).mandatory[j] by {
                    assert(slots@[j] == Some(mand0[j]));
                }
            }
            assert(bundle@.model == as_bundle(orig).model);
            assert(bundle@.discretionary =~= as_bundle(orig).discretionary);
            assert(bundle@ == as_bundle(orig));
            assert(schema.table_wf(t as int));
            assert forall|k: int| #![trigger bundle@.mandatory[k]] 0 <= k < bundle@.mandatory.len() implies slot_wf(
                *schema,
                schema.tables@[t as int].mandatory_keys@[k],
                bundle@.mandatory[k],
            ) by {
                assert(bundle@.mandatory[k] == Some(orig.mandatory[k]));
            }
            assert(bundle_wf(*schema, t as int, bundle@));
        }
        let (nb, r) = crate::builder_bundle::bundle_try_set_owned(schema, bundle, c, v, true);
        let ghost expected = crate::builder_bundle::bundle_try_set_mode(*schema, as_bundle(orig), c as int, v, true);
        proof {
            assert(nb@ == expected.0);
            // The mandatory builders stay present.
            let bv = as_bundle(orig);
            assert forall|k: int| 0 <= k < bv.mandatory.len() implies bv.mandatory[k] is Some by {}
            lemma_mandatory_keeps_builders(
                *schema,
                bv.mandatory,
                schema.tables@[t as int].mandatory_keys@,
                c as int,
                v,
                true,
            );
        }
        let TableBuilderBundle {
            insertable_model: nv2,
            nested_mandatory_associated_builders: mut slots2,
            nested_discretionary_associated_builders: disc2,
        } = nb;
        let ghost slots20 = slots2@;
        proof {
            assert forall|j: int| 0 <= j < slots20.len() implies (#[trigger] slots20[j]) is Some by {
                assert(expected.0.mandatory[j] == opt_builder_view(slots20[j]));
            }
        }
        let mut builders: Vec<TableBuilder> = Vec::new();
        while slots2.len() > 0
            invariant
                slots20.len() == builders@.len() + slots2@.len(),
                forall|j: int| 0 <= j < slots20.len() ==> (#[trigger] slots20[j]) is Some,
                forall|j: int| 0 <= j < builders@.len() ==> slots20[j] == Some(#[trigger] builders@[j]),
                forall|j: int| 0 <= j < slots2@.len() ==> slots2@[j] == slots20[builders@.len() + j],
            decreases slots2.len(),
        {
            let o = slots2.remove(0);
            assert(o == slots20[builders@.len() as int]);
            builders.push(o.unwrap());
        }
        self.insertable_model = nv2;
        self.nested_mandatory_associated_builders = builders;
        self.nested_discretionary_associated_builders = disc2;
        proof {
            assert(self@.mandatory =~= as_completed(expected.0).mandatory) by {
                assert forall|j: int| 0 <= j < self@.mandatory.len() implies self@.mandatory[j] == as_completed(
                    expected.0,
                ).mandatory[j] by {
                    assert(slots20[j] == Some(builders@[j]));
                    assert(expected.0.mandatory[j] == opt_builder_view(slots20[j]));
                }
            }
            assert(self@.model == as_completed(expected.0).model);
            assert(self@.discretionary =~= as_completed(expected.0).discretionary);
            assert(self@ == as_completed(expected.0));
            assert forall|k: int| #![trigger self@.mandatory[k]] 0 <= k < self@.mandatory.len() implies slot_wf(
                *schema,
                schema.tables@[t as int].mandatory_keys@[k],
                Some(self@.mandatory[k]),
            ) by {
                assert(expected.0.mandatory[k] == opt_builder_view(slots20[k]));
                assert(slots20[k] == Some(builders@[k]));
                assert(slot_wf(*schema, schema.tables@[t as int].mandatory_keys@[k], expected.0.mandatory[k]));
            }
        }
        r
    }
}

} // verus!

verus! {

/// Passing a value of a host column, `NULL` included, on to the builders of
/// the discretionary keys of a completed bundle.
pub trait TryMaySetDiscretionarySameAsNestedColumns: View<V = CompletedView> {
    /// Passes value `v` of column `c`, `NULL` included, on to the builders
    /// set for the discretionary keys that host `c`, first to last, stopping
    /// at the first refused value; nothing else changes. A `NULL` can only
    /// be passed on where every column it would reach accepts it.
    fn try_may_set_discretionary_same_as_nested_columns(&mut self, schema: &Schema, c: usize, v: Option<Value>) -> (r:
        Result<(), ValidationError>)
        requires
            schema.wf(),
            completed_wf(*schema, old(self)@.model.table, old(self)@),
            schema.has_column(old(self)@.model.table, c as int),
            fits(schema.column(old(self)@.model.table, c as int), v),
            v is None ==> nulls_pass(*schema, schema.tables@[old(self)@.model.table].discretionary_keys@, c),
        ensures
            final(self)@ == (CompletedView {
                discretionary: crate::builder_bundle::discretionary_try_set(
                    *schema,
                    old(self)@.discretionary,
                    schema.tables@[old(self)@.model.table].discretionary_keys@,
                    c as int,
                    v,
                    true,
                ).0,
                ..old(self)@
            }),
            err_of(r) == crate::builder_bundle::discretionary_try_set(
                *schema,
                old(self)@.discretionary,
                schema.tables@[old(self)@.model.table].discretionary_keys@,
                c as int,
                v,
                true,
            ).1,
            completed_wf(*schema, old(self)@.model.table, final(self)@),
    ;
}

impl TryMaySetDiscretionarySameAsNestedColumns for CompletedTableBuilderBundle {
    fn try_may_set_discretionary_same_as_nested_columns(&mut self, schema: &Schema, c: usize, v: Option<Value>) -> (r:
        Result<(), ValidationError>) {
        let ghost before = self@;
        let t = self.insertable_model.table;
        proof {
            assert(schema.table_wf(t as int));
            let td = schema.tables@[t as int];
            assert forall|k: int|
                #![trigger self.nested_discretionary_associated_builders@[k]]
                0 <= k < self.nested_discretionary_associated_builders@.len() implies schema.key_wf(
                t as int,
                td.discretionary_keys@[k],
            ) && slot_wf(
                *schema,
                td.discretionary_keys@[k],
                opt_builder_view(self.nested_discretionary_associated_builders@[k]),
            ) by {
                assert(before.discretionary[k] == opt_builder_view(self.nested_discretionary_associated_builders@[k]));
            }
        }
        let mut disc: Vec<Option<TableBuilder>> = Vec::new();
        std::mem::swap(&mut disc, &mut self.nested_discretionary_associated_builders);
        let (disc2, r) = crate::builder_bundle::discretionary_try_set_owned(
            schema,
            disc,
            &schema.tables[t].discretionary_keys,
            t,
            c,
            v,
            true,
        );
        self.nested_discretionary_associated_builders = disc2;
        proof {
            assert(self@.discretionary =~= slots_view(disc2@));
            assert(self@.mandatory =~= before.mandatory);
            assert forall|k: int| 0 <= k < self@.discretionary.len() implies slot_wf(
                *schema,
                schema.tables@[t as int].discretionary_keys@[k],
                #[trigger] self@.discretionary[k],
            ) by {
                assert(self@.discretionary[k] == opt_builder_view(disc2@[k]));
            }
        }
        r
    }
}

} // verus!

verus! {

impl Clone for CompletedTableBuilderBundle {
    fn clone(&self) -> (r: Self)
        ensures
            r@ == self@,
    {
        let insertable_model = copy_insertable(&self.insertable_model);
        let mut mandatory: Vec<TableBuilder> = Vec::new();
        let mut k: usize = 0;
        while k < self.nested_mandatory_associated_builders.len()
            invariant
                k <= self.nested_mandatory_associated_builders@.len(),
                mandatory@.len() == k,
                forall|j: int|
                    0 <= j < k ==> builder_view(#[trigger] mandatory@[j]) == builder_view(
                        self.nested_mandatory_associated_builders@[j],
                    ),
            decreases self.nested_mandatory_associated_builders.len() - k,
        {
            let b = copy_builder(&self.nested_mandatory_associated_builders[k]);
            mandatory.push(b);
            k += 1;
        }
        let discretionary = copy_slots(&self.nested_discretionary_associated_builders);
        let r = CompletedTableBuilderBundle {
            insertable_model,
            nested_mandatory_associated_builders: mandatory,
            nested_discretionary_associated_builders: discretionary,
        };
        proof {
            assert(r@.mandatory =~= self@.mandatory);
            assert(r@.discretionary =~= self@.discretionary);
        }
        r
    }
}

} // verus!
