//! The insertion of a builder into the database, as decisions between
//! database operations: each step takes the record the last operation
//! returned and says which operation comes next.
use vstd::prelude::*;
use crate::value::Value;
use crate::schema::{Schema, HorizontalKeyDef};
use crate::builder_error::{ValidationError, IncompleteBuilderError, BuilderError};
use crate::model::{
    Model, InsertableModel, new_values_wf, model_wf, set_all, may_set_all, all_pass, all_may_pass,
    column_error,
};
use crate::hierarchy::{key_columns, collect_key_columns};
use crate::builder_bundle::{TableBuilder, builder_view, opt_builder_view, builder_wf};
use crate::completed_bundle::{CompletedTableBuilderBundle, CompletedView, completed_wf};
use crate::nested_models::{
    TupleGetNestedColumns, TupleMayGetNestedColumns, TupleEqAll, tuple_values, tuple_may_values,
    paired, unwrapped, first_unset, missing_field_error, complete_values,
};
use crate::get_set_columns::{TrySetNestedColumns, TryMaySetNestedColumns, first_failure, first_may_failure};

verus! {

/// The primary key columns of the tables referenced by `keys`.
pub open spec fn referenced_pk_columns(s: Schema, keys: Seq<HorizontalKeyDef>) -> Seq<usize> {
    keys.map_values(|k: HorizontalKeyDef| s.tables@[k.referenced_table as int].primary_key)
}

/// Returns the primary key columns of the tables referenced by `keys`.
pub fn referenced_primary_keys(schema: &Schema, keys: &Vec<HorizontalKeyDef>) -> (r: Vec<usize>)
    requires
        forall|k: int| 0 <= k < keys@.len() ==> schema.has_table((#[trigger] keys@[k]).referenced_table as int),
    ensures
        r@ == referenced_pk_columns(*schema, keys@),
{
    let mut out: Vec<usize> = Vec::new();
    let mut i: usize = 0;
    while i < keys.len()
        invariant
            i <= keys@.len(),
            forall|k: int| 0 <= k < keys@.len() ==> schema.has_table((#[trigger] keys@[k]).referenced_table as int),
            out@ == referenced_pk_columns(*schema, keys@).take(i as int),
        decreases keys.len() - i,
    {
        out.push(schema.tables[keys[i].referenced_table].primary_key);
        assert(referenced_pk_columns(*schema, keys@).take(i + 1) =~= referenced_pk_columns(*schema, keys@).take(
            i as int,
        ).push(schema.tables@[keys@[i as int].referenced_table as int].primary_key));
        i += 1;
    }
    assert(referenced_pk_columns(*schema, keys@).take(keys@.len() as int) =~= referenced_pk_columns(
        *schema,
        keys@,
    ));
    out
}

/// Returns the columns `0..n`.
pub fn all_columns(n: usize) -> (r: Vec<usize>)
    ensures
        r@ == Seq::new(n as nat, |j: int| j as usize),
{
    let mut out: Vec<usize> = Vec::new();
    let mut j: usize = 0;
    while j < n
        invariant
            j <= n,
            out@ == Seq::new(j as nat, |i: int| i as usize),
        decreases n - j,
    {
        out.push(j);
        assert(out@ =~= Seq::new((j + 1) as nat, |i: int| i as usize));
        j += 1;
    }
    out
}

/// An operation the caller performs for an insertion, or its end.
pub enum InsertionAction {
    /// Insert the record of this builder, then report the record it gave.
    InsertBuilder(TableBuilder),
    /// Insert a row with these column values into the table, then report
    /// the record the database returned.
    InsertRow {
        /// The table of the row.
        table: usize,
        /// Each column with its value.
        values: Vec<(usize, Option<Value>)>,
    },
    /// The insertion is complete: the record of the bundle.
    Done(Model),
    /// The insertion failed.
    Failed(BuilderError<ValidationError>),
}

/// The stage of the insertion of a bundle.
#[derive(Clone, Copy, Debug, PartialEq, Eq, Structural)]
pub enum InsertionStage {
    /// Inserting the builders of the mandatory keys.
    Mandatory,
    /// Inserting the builders of the discretionary keys.
    Discretionary,
    /// Inserting the row of the bundle's table.
    Row,
    /// The insertion has ended.
    Finished,
}

/// The insertion of a completed bundle: the mandatory builders first, then
/// the discretionary ones, the primary keys of their records stored in the
/// key columns, and finally the row of the table.
pub struct BundleInsertion {
    /// The table of the bundle.
    pub table: usize,
    /// The insertable values of the table.
    pub insertable_model: InsertableModel,
    /// The mandatory builders not yet handed out.
    pub mandatory: Vec<Option<TableBuilder>>,
    /// The discretionary builders not yet handed out.
    pub discretionary: Vec<Option<TableBuilder>>,
    /// The records of the mandatory builders, in key order.
    pub mandatory_models: Vec<Model>,
    /// The records of the discretionary builders, in key order.
    pub discretionary_models: Vec<Option<Model>>,
    /// The stage of the insertion.
    pub stage: InsertionStage,
    /// Whether the last action awaits a record.
    pub awaiting: bool,
    /// The completed bundle the insertion started from.
    pub initial: Ghost<CompletedView>,
}

/// The key columns of the mandatory keys of table `t`.
pub open spec fn mandatory_columns(s: Schema, t: int) -> Seq<usize> {
    key_columns(s.tables@[t].mandatory_keys@)
}

/// The key columns of the discretionary keys of table `t`.
pub open spec fn discretionary_columns(s: Schema, t: int) -> Seq<usize> {
    key_columns(s.tables@[t].discretionary_keys@)
}

/// The primary keys of the records of the mandatory builders.
pub open spec fn mandatory_keys_values(s: Schema, t: int, mm: Seq<Model>) -> Seq<Option<Value>> {
    tuple_values(mm, referenced_pk_columns(s, s.tables@[t].mandatory_keys@))
}

/// The primary keys of the records of the discretionary builders.
pub open spec fn discretionary_keys_values(s: Schema, t: int, dm: Seq<Option<Model>>) -> Seq<Option<Option<Value>>> {
    tuple_may_values(dm, referenced_pk_columns(s, s.tables@[t].discretionary_keys@))
}

impl BundleInsertion {
    /// The invariant of the insertion.
    pub open spec fn inv(&self, s: Schema) -> bool {
        let o = self.initial@;
        let t = o.model.table;
        let mkeys = s.tables@[t].mandatory_keys@;
        let dkeys = s.tables@[t].discretionary_keys@;
        let mm = self.mandatory_models@;
        let dm = self.discretionary_models@;
        let mvals = mandatory_keys_values(s, t, mm);
        let dvals = discretionary_keys_values(s, t, dm);
        let slots1 = set_all(o.model.slots, mandatory_columns(s, t), mvals);
        &&& s.wf()
        &&& s.has_table(t)
        &&& completed_wf(s, t, o)
        &&& self.table as int == t
        &&& self.mandatory@.len() == mkeys.len()
        &&& self.discretionary@.len() == dkeys.len()
        &&& self.insertable_model@.table == t
        &&& new_values_wf(s, self.insertable_model@)
        &&& mm.len() <= mkeys.len()
        &&& dm.len() <= dkeys.len()
        &&& forall|i: int|
            #![trigger mm[i]]
            0 <= i < mm.len() ==> model_wf(s, mm[i]@) && mm[i].table == mkeys[i].referenced_table
        &&& forall|i: int|
            #![trigger dm[i]]
            0 <= i < dm.len() ==> match dm[i] {
                Some(m) => model_wf(s, m@) && m.table == dkeys[i].referenced_table && o.discretionary[i] is Some,
                None => o.discretionary[i] is None,
            }
        &&& forall|k: int|
            #![trigger self.mandatory@[k]]
            mm.len() + (if self.awaiting && self.stage == InsertionStage::Mandatory {
                1int
            } else {
                0int
            }) <= k < mkeys.len() ==> self.mandatory@[k] is Some && builder_view(self.mandatory@[k]->0)
                == o.mandatory[k]
        &&& forall|k: int|
            #![trigger self.discretionary@[k]]
            dm.len() + (if self.awaiting && self.stage == InsertionStage::Discretionary {
                1int
            } else {
                0int
            }) <= k < dkeys.len() ==> opt_builder_view(self.discretionary@[k]) == o.discretionary[k]
        &&& match self.stage {
            InsertionStage::Mandatory => {
                &&& self.insertable_model@ == o.model
                &&& dm.len() == 0
                &&& self.awaiting ==> mm.len() < mkeys.len()
            },
            InsertionStage::Discretionary => {
                &&& mm.len() == mkeys.len()
                &&& all_pass(s, t, mandatory_columns(s, t), mvals, mm.len() as int)
                &&& self.insertable_model@.slots == slots1
                &&& self.awaiting ==> dm.len() < dkeys.len() && o.discretionary[dm.len() as int] is Some
            },
            InsertionStage::Row => {
                &&& mm.len() == mkeys.len()
                &&& dm.len() == dkeys.len()
                &&& all_pass(s, t, mandatory_columns(s, t), mvals, mm.len() as int)
                &&& all_may_pass(s, t, discretionary_columns(s, t), dvals, dm.len() as int)
                &&& self.insertable_model@.slots == may_set_all(slots1, discretionary_columns(s, t), dvals)
            },
            InsertionStage::Finished => true,
        }
    }

    /// The table of the record the caller reports next.
    pub open spec fn expected_table(&self, s: Schema) -> int {
        let t = self.initial@.model.table;
        match self.stage {
            InsertionStage::Mandatory => s.tables@[t].mandatory_keys@[self.mandatory_models@.len() as int].referenced_table as int,
            InsertionStage::Discretionary => s.tables@[t].discretionary_keys@[self.discretionary_models@.len() as int].referenced_table as int,
            _ => t,
        }
    }

    /// Starts the insertion of a completed bundle.
    pub fn start(schema: &Schema, bundle: CompletedTableBuilderBundle) -> (r: BundleInsertion)
        requires
            schema.wf(),
            completed_wf(*schema, bundle@.model.table, bundle@),
        ensures
            r.inv(*schema),
            r.initial@ == bundle@,
            r.stage == InsertionStage::Mandatory,
            !r.awaiting,
            r.mandatory_models@.len() == 0,
    {
        let ghost o = bundle@;
        let CompletedTableBuilderBundle {
            insertable_model,
            nested_mandatory_associated_builders: mut mand,
            nested_discretionary_associated_builders: disc,
        } = bundle;
        let ghost mand0 = mand@;
        let mut slots: Vec<Option<TableBuilder>> = Vec::new();
        while mand.len() > 0
            invariant
                mand0.len() == slots@.len() + mand@.len(),
                forall|j: int| 0 <= j < slots@.len() ==> slots@[j] == Some(#[trigger] mand0[j]),
                forall|j: int| 0 <= j < mand@.len() ==> mand@[j] == mand0[slots@.len() + j],
            decreases mand.len(),
        {
            let b = mand.remove(0);
            slots.push(Some(b));
        }
        let t = insertable_model.table;
        let r = BundleInsertion {
            table: t,
            insertable_model,
            mandatory: slots,
            discretionary: disc,
            mandatory_models: Vec::new(),
            discretionary_models: Vec::new(),
            stage: InsertionStage::Mandatory,
            awaiting: false,
            initial: Ghost(o),
        };
        proof {
            assert(r.mandatory_models@.len() == 0);
            assert forall|k: int|
                #![trigger r.mandatory@[k]]
                r.mandatory_models@.len() + (if r.awaiting && r.stage == InsertionStage::Mandatory {
                    1int
                } else {
                    0int
                }) <= k < schema.tables@[o.model.table].mandatory_keys@.len() implies r.mandatory@[k] is Some
                && builder_view(r.mandatory@[k]->0) == o.mandatory[k] by {
                assert(slots@[k] == Some(mand0[k]));
                assert(o.mandatory[k] == builder_view(mand0[k]));
            }
            assert forall|k: int| 0 <= k < r.discretionary@.len() implies opt_builder_view(
                r.discretionary@[k],
            ) == o.discretionary[k] by {}
            let tt = o.model.table;
            assert(r.mandatory@.len() == schema.tables@[tt].mandatory_keys@.len());
            assert(r.discretionary@.len() == schema.tables@[tt].discretionary_keys@.len());
            assert(r.insertable_model@ == o.model);
            assert(new_values_wf(*schema, r.insertable_model@));
            assert(r.table as int == tt);
        }
        r
    }
}

} // verus!

verus! {

/// The primary keys of records of the referenced tables fit the key
/// columns.
proof fn lemma_key_values_fit(s: Schema, t: int, keys: Seq<HorizontalKeyDef>, mm: Seq<Model>)
    requires
        s.wf(),
        s.has_table(t),
        mm.len() == keys.len(),
        forall|k: int| #![trigger keys[k]] 0 <= k < keys.len() ==> s.key_wf(t, keys[k]),
        forall|i: int|
            #![trigger mm[i]]
            0 <= i < mm.len() ==> model_wf(s, mm[i]@) && mm[i].table == keys[i].referenced_table,
    ensures
        crate::model::values_fit(s, t, key_columns(keys), tuple_values(mm, referenced_pk_columns(s, keys))),
        forall|i: int| #![trigger mm[i]] 0 <= i < mm.len() ==> referenced_pk_columns(s, keys)[i] < mm[i].values@.len(),
{
    let cols = key_columns(keys);
    let vals = tuple_values(mm, referenced_pk_columns(s, keys));
    assert forall|i: int| #![trigger cols[i]] 0 <= i < cols.len() implies s.has_column(t, cols[i] as int)
        && crate::schema::fits(s.column(t, cols[i] as int), vals[i]) by {
        let k = keys[i];
        let r = k.referenced_table as int;
        assert(s.key_wf(t, k));
        assert(mm[i].table == k.referenced_table);
        assert(model_wf(s, mm[i]@));
        assert(s.table_wf(r));
        assert(referenced_pk_columns(s, keys)[i] as int == s.pk(r));
        assert(crate::schema::fits(s.column(r, s.pk(r)), mm[i].values@[s.pk(r)]));
    }
    assert forall|i: int| #![trigger mm[i]] 0 <= i < mm.len() implies referenced_pk_columns(s, keys)[i] < mm[i].values@.len() by {
        let r = keys[i].referenced_table as int;
        assert(s.key_wf(t, keys[i]));
        assert(s.table_wf(r));
        assert(model_wf(s, mm[i]@));
    }
}

/// The primary keys of records of the referenced tables, where there are
/// records, fit the key columns.
proof fn lemma_may_key_values_fit(s: Schema, t: int, keys: Seq<HorizontalKeyDef>, dm: Seq<Option<Model>>)
    requires
        s.wf(),
        s.has_table(t),
        dm.len() == keys.len(),
        forall|k: int| #![trigger keys[k]] 0 <= k < keys.len() ==> s.key_wf(t, keys[k]),
        forall|i: int|
            #![trigger dm[i]]
            0 <= i < dm.len() ==> match dm[i] {
                Some(m) => model_wf(s, m@) && m.table == keys[i].referenced_table,
                None => true,
            },
    ensures
        crate::model::may_values_fit(s, t, key_columns(keys), tuple_may_values(dm, referenced_pk_columns(s, keys))),
        forall|i: int|
            #![trigger dm[i]]
            0 <= i < dm.len() ==> match dm[i] {
                Some(m) => referenced_pk_columns(s, keys)[i] < m.values@.len(),
                None => true,
            },
{
    let cols = key_columns(keys);
    let vals = tuple_may_values(dm, referenced_pk_columns(s, keys));
    assert forall|i: int| #![trigger cols[i]] 0 <= i < cols.len() implies s.has_column(t, cols[i] as int)
        && match vals[i] {
        Some(v) => crate::schema::fits(s.column(t, cols[i] as int), v),
        None => true,
    } by {
        let k = keys[i];
        let r = k.referenced_table as int;
        assert(s.key_wf(t, k));
        assert(s.table_wf(r));
        match dm[i] {
            Some(m) => {
                assert(model_wf(s, m@));
                assert(crate::schema::fits(s.column(r, s.pk(r)), m.values@[s.pk(r)]));
            },
            None => {},
        }
    }
    assert forall|i: int| #![trigger dm[i]] 0 <= i < dm.len() implies match dm[i] {
        Some(m) => referenced_pk_columns(s, keys)[i] < m.values@.len(),
        None => true,
    } by {
        let r = keys[i].referenced_table as int;
        assert(s.key_wf(t, keys[i]));
        assert(s.table_wf(r));
    }
}

impl BundleInsertion {
    /// Takes the record the last action awaited, if any, and returns the
    /// next action: the next mandatory builder to insert, in key order; once
    /// all are inserted, their primary keys stored in the key columns, or the
    /// refusal of one; then the next discretionary builder, skipping absent
    /// ones; their primary keys stored likewise; then the row of the table,
    /// or the first column left unset; and at last the record of the row.
    pub fn step(&mut self, schema: &Schema, reply: Option<Model>) -> (action: InsertionAction)
        requires
            old(self).inv(*schema),
            old(self).stage != InsertionStage::Finished,
            old(self).awaiting ==> (reply matches Some(m) && model_wf(*schema, m@) && m.table as int
                == old(self).expected_table(*schema)),
            !old(self).awaiting ==> reply is None,
        ensures
            final(self).inv(*schema),
            final(self).initial == old(self).initial,
            old(self).awaiting && old(self).stage == InsertionStage::Mandatory ==> final(self).mandatory_models@
                == old(self).mandatory_models@.push(reply->0),
            !(old(self).awaiting && old(self).stage == InsertionStage::Mandatory) ==> final(self).mandatory_models@
                == old(self).mandatory_models@,
            old(self).awaiting && old(self).stage == InsertionStage::Discretionary ==> final(self).discretionary_models@.take(
                old(self).discretionary_models@.len() + 1int,
            ) == old(self).discretionary_models@.push(reply),
            !(old(self).awaiting && old(self).stage == InsertionStage::Discretionary) ==> final(self).discretionary_models@.take(
                old(self).discretionary_models@.len() as int,
            ) == old(self).discretionary_models@,
            forall|i: int|
                #![trigger final(self).discretionary_models@[i]]
                old(self).discretionary_models@.len() + (if old(self).awaiting && old(self).stage
                    == InsertionStage::Discretionary {
                    1int
                } else {
                    0int
                }) <= i < final(self).discretionary_models@.len() ==> final(self).discretionary_models@[i] is None,
            final(self).discretionary_models@.len() >= old(self).discretionary_models@.len() + (if old(self).awaiting
                && old(self).stage == InsertionStage::Discretionary {
                1int
            } else {
                0int
            }),
            ({
                let o = final(self).initial@;
                let t = o.model.table;
                let mm = final(self).mandatory_models@;
                let dm = final(self).discretionary_models@;
                match action {
                    InsertionAction::InsertBuilder(b) => {
                        &&& final(self).awaiting
                        &&& final(self).stage == InsertionStage::Mandatory ==> mm.len() < o.mandatory.len() && b@
                            == o.mandatory[mm.len() as int]
                        &&& final(self).stage == InsertionStage::Discretionary ==> o.discretionary[dm.len() as int]
                            == Some(b@)
                        &&& (final(self).stage == InsertionStage::Mandatory || final(self).stage
                            == InsertionStage::Discretionary)
                        &&& builder_wf(*schema, b@)
                    },
                    InsertionAction::InsertRow { table, values } => {
                        &&& final(self).awaiting
                        &&& final(self).stage == InsertionStage::Row
                        &&& table as int == t
                        &&& forall|j: int|
                            0 <= j < final(self).insertable_model@.slots.len() ==> final(self).insertable_model@.slots[j] is Some
                        &&& values@ == paired(
                            Seq::new(final(self).insertable_model@.slots.len(), |j: int| j as usize),
                            unwrapped(final(self).insertable_model@.slots),
                        )
                    },
                    InsertionAction::Done(m) => {
                        &&& old(self).stage == InsertionStage::Row
                        &&& old(self).awaiting
                        &&& reply == Some(m)
                        &&& final(self).stage == InsertionStage::Finished
                    },
                    InsertionAction::Failed(e) => {
                        &&& final(self).stage == InsertionStage::Finished
                        &&& mm.len() == o.mandatory.len()
                        &&& match e {
                            BuilderError::Validation(ve) => {
                                let mvals = mandatory_keys_values(*schema, t, mm);
                                let dvals = discretionary_keys_values(*schema, t, dm);
                                ||| exists|k: int|
                                    #[trigger] first_failure(*schema, t, mandatory_columns(*schema, t), mvals, k)
                                        && ve == column_error(*schema, t, mandatory_columns(*schema, t)[k] as int)
                                ||| dm.len() == o.discretionary.len() && all_pass(
                                    *schema,
                                    t,
                                    mandatory_columns(*schema, t),
                                    mvals,
                                    mm.len() as int,
                                ) && exists|k: int|
                                    #[trigger] first_may_failure(
                                        *schema,
                                        t,
                                        discretionary_columns(*schema, t),
                                        dvals,
                                        k,
                                    ) && ve == column_error(
                                        *schema,
                                        t,
                                        discretionary_columns(*schema, t)[k] as int,
                                    )
                            },
                            BuilderError::Incomplete(ie) => {
                                let mvals = mandatory_keys_values(*schema, t, mm);
                                let dvals = discretionary_keys_values(*schema, t, dm);
                                let slots = may_set_all(
                                    set_all(o.model.slots, mandatory_columns(*schema, t), mvals),
                                    discretionary_columns(*schema, t),
                                    dvals,
                                );
                                &&& dm.len() == o.discretionary.len()
                                &&& all_pass(*schema, t, mandatory_columns(*schema, t), mvals, mm.len() as int)
                                &&& all_may_pass(*schema, t, discretionary_columns(*schema, t), dvals, dm.len() as int)
                                &&& exists|k: int| #[trigger] first_unset(slots, k) && ie == missing_field_error(*schema, t, k)
                            },
                            BuilderError::Diesel(_) => false,
                        }
                    },
                }
            }),
    {
        let ghost o = self.initial@;
        let t = self.table;
        proof {
            assert(schema.table_wf(t as int));
        }
        if self.awaiting {
            let m = reply.unwrap();
            self.awaiting = false;
            match self.stage {
                InsertionStage::Mandatory => {
                    self.mandatory_models.push(m);
                },
                InsertionStage::Discretionary => {
                    self.discretionary_models.push(Some(m));
                },
                _ => {
                    self.stage = InsertionStage::Finished;
                    return InsertionAction::Done(m);
                },
            }
        }
        if self.stage == InsertionStage::Mandatory {
            let k = self.mandatory_models.len();
            if k < self.mandatory.len() {
                let mut slot: Option<TableBuilder> = None;
                std::mem::swap(&mut slot, &mut self.mandatory[k]);
                self.awaiting = true;
                let b = slot.unwrap();
                proof {
                    assert(schema.table_wf(t as int));
                    assert(completed_wf(*schema, t as int, o));
                    assert(crate::builder_bundle::slot_wf(
                        *schema,
                        schema.tables@[t as int].mandatory_keys@[k as int],
                        Some(o.mandatory[k as int]),
                    ));
                }
                return InsertionAction::InsertBuilder(b);
            }
            let cols = collect_key_columns(&schema.tables[t].mandatory_keys);
            proof {
                assert forall|k: int|
                    #![trigger schema.tables@[t as int].mandatory_keys@[k]]
                    0 <= k < schema.tables@[t as int].mandatory_keys@.len() implies schema.has_table(
                    schema.tables@[t as int].mandatory_keys@[k].referenced_table as int,
                ) && schema.key_wf(t as int, schema.tables@[t as int].mandatory_keys@[k]) by {
                    assert(schema.key_wf(t as int, schema.tables@[t as int].mandatory_keys@[k]));
                }
                lemma_key_values_fit(
                    *schema,
                    t as int,
                    schema.tables@[t as int].mandatory_keys@,
                    self.mandatory_models@,
                );
            }
            let pk_cols = referenced_primary_keys(schema, &schema.tables[t].mandatory_keys);
            let vals = self.mandatory_models.tuple_get_nested_columns(&pk_cols);
            let res = self.insertable_model.try_set_nested_columns(schema, &cols, &vals);
            proof {
                assert(cols@ == mandatory_columns(*schema, t as int));
                assert(vals@ == mandatory_keys_values(*schema, t as int, self.mandatory_models@));
                assert(self.mandatory_models@.len() == o.mandatory.len());
            }
            if let Err(e) = res {
                self.stage = InsertionStage::Finished;
                return InsertionAction::Failed(BuilderError::Validation(e));
            }
            self.stage = InsertionStage::Discretionary;
        }
        if self.stage == InsertionStage::Discretionary {
            while self.discretionary_models.len() < self.discretionary.len()
                invariant
                    self.inv(*schema),
                    self.stage == InsertionStage::Discretionary,
                    !self.awaiting,
                    self.initial@ == o,
                    self.initial == old(self).initial,
                    t as int == o.model.table,
                    self.mandatory_models@ == old(self).mandatory_models@ || (old(self).awaiting
                        && old(self).stage == InsertionStage::Mandatory && self.mandatory_models@
                        == old(self).mandatory_models@.push(reply->0)),
                    old(self).awaiting && old(self).stage == InsertionStage::Mandatory ==> self.mandatory_models@
                        == old(self).mandatory_models@.push(reply->0),
                    !(old(self).awaiting && old(self).stage == InsertionStage::Mandatory) ==> self.mandatory_models@
                        == old(self).mandatory_models@,
                    old(self).awaiting && old(self).stage == InsertionStage::Discretionary ==> self.discretionary_models@.take(
                        old(self).discretionary_models@.len() + 1int,
                    ) == old(self).discretionary_models@.push(reply),
                    !(old(self).awaiting && old(self).stage == InsertionStage::Discretionary) ==> self.discretionary_models@.take(
                        old(self).discretionary_models@.len() as int,
                    ) == old(self).discretionary_models@,
                    old(self).awaiting && old(self).stage == InsertionStage::Discretionary ==> self.discretionary_models@.len()
                        >= old(self).discretionary_models@.len() + 1int,
                    self.discretionary_models@.len() >= old(self).discretionary_models@.len(),
                    forall|i: int|
                        #![trigger self.discretionary_models@[i]]
                        old(self).discretionary_models@.len() + (if old(self).awaiting && old(self).stage
                            == InsertionStage::Discretionary {
                            1int
                        } else {
                            0int
                        }) <= i < self.discretionary_models@.len() ==> self.discretionary_models@[i] is None,
                decreases self.discretionary.len() - self.discretionary_models.len(),
            {
                let k = self.discretionary_models.len();
                let mut slot: Option<TableBuilder> = None;
                std::mem::swap(&mut slot, &mut self.discretionary[k]);
                match slot {
                    Some(b) => {
                        self.awaiting = true;
                        proof {
                            assert(schema.table_wf(t as int));
                            assert(completed_wf(*schema, t as int, o));
                            assert(o.discretionary[k as int] == Some(b@));
                            assert(crate::builder_bundle::slot_wf(
                                *schema,
                                schema.tables@[t as int].discretionary_keys@[k as int],
                                o.discretionary[k as int],
                            ));
                        }
                        return InsertionAction::InsertBuilder(b);
                    },
                    None => {
                        self.discretionary_models.push(None);
                    },
                }
            }
            let cols = collect_key_columns(&schema.tables[t].discretionary_keys);
            proof {
                assert forall|k: int|
                    #![trigger schema.tables@[t as int].discretionary_keys@[k]]
                    0 <= k < schema.tables@[t as int].discretionary_keys@.len() implies schema.has_table(
                    schema.tables@[t as int].discretionary_keys@[k].referenced_table as int,
                ) && schema.key_wf(t as int, schema.tables@[t as int].discretionary_keys@[k]) by {
                    assert(schema.key_wf(t as int, schema.tables@[t as int].discretionary_keys@[k]));
                }
                lemma_may_key_values_fit(
                    *schema,
                    t as int,
                    schema.tables@[t as int].discretionary_keys@,
                    self.discretionary_models@,
                );
            }
            let pk_cols = referenced_primary_keys(schema, &schema.tables[t].discretionary_keys);
            let vals = self.discretionary_models.tuple_may_get_nested_columns(&pk_cols);
            let res = self.insertable_model.try_may_set_nested_columns(schema, &cols, &vals);
            proof {
                assert(cols@ == discretionary_columns(*schema, t as int));
                assert(vals@ == discretionary_keys_values(*schema, t as int, self.discretionary_models@));
                assert(self.mandatory_models@.len() == o.mandatory.len());
                assert(self.discretionary_models@.len() == o.discretionary.len());
            }
            if let Err(e) = res {
                self.stage = InsertionStage::Finished;
                return InsertionAction::Failed(BuilderError::Validation(e));
            }
            self.stage = InsertionStage::Row;
        }
        match complete_values(schema, &self.insertable_model) {
            Err(e) => {
                self.stage = InsertionStage::Finished;
                InsertionAction::Failed(BuilderError::Incomplete(e))
            },
            Ok(vals) => {
                let columns = all_columns(self.insertable_model.values.len());
                let values = columns.eq_all(&vals);
                self.awaiting = true;
                InsertionAction::InsertRow { table: t, values }
            },
        }
    }
}

} // verus!

verus! {

/// The insertion of a builder: the bundles of the table's ancestors, root
/// first, then the table's own, each bundle storing the primary key of the
/// record of the bundle before it in its own primary key column.
pub struct BuilderInsertion {
    /// The table of the builder.
    pub table: usize,
    /// The bundles not yet started.
    pub bundles: Vec<Option<crate::builder_bundle::TableBuilderBundle>>,
    /// The number of bundles started.
    pub index: usize,
    /// The records of the finished bundles.
    pub models: Vec<Model>,
    /// Whether the insertion has ended.
    pub finished: bool,
    /// The builder the insertion started from.
    pub initial: Ghost<crate::builder_bundle::BuilderView>,
}

/// The next step of the insertion of a builder.
pub enum BuilderStep {
    /// Insert this bundle, then report its record.
    Bundle(BundleInsertion),
    /// The insertion is complete: the record of the builder's table.
    Done(Model),
    /// The insertion failed.
    Failed(BuilderError<ValidationError>),
}

/// The completed bundle view of a bundle whose mandatory builders are all
/// set.
pub open spec fn completed_of(bv: crate::builder_bundle::BundleView) -> CompletedView {
    crate::completed_bundle::as_completed(bv)
}

/// The completed bundle inserted at position `i` of a builder, after the
/// records `models` of the bundles before it: the bundle itself for the
/// root, and otherwise the bundle after setting its primary key to the
/// primary key of the record before it.
pub open spec fn prepared_bundle(s: Schema, o: crate::builder_bundle::BuilderView, i: int, models: Seq<Model>) -> (
    CompletedView,
    Option<ValidationError>,
) {
    let chain = s.chain(o.table);
    if i == 0 {
        (completed_of(o.bundles[0]), None)
    } else {
        crate::completed_bundle::completed_try_set(
            s,
            completed_of(o.bundles[i]),
            s.pk(chain[i] as int),
            models[i - 1].values@[s.pk(chain[i - 1] as int)],
        )
    }
}

impl BuilderInsertion {
    /// The invariant of the insertion.
    pub open spec fn inv(&self, s: Schema) -> bool {
        let o = self.initial@;
        let chain = s.chain(o.table);
        let n = chain.len();
        &&& s.wf()
        &&& builder_wf(s, o)
        &&& self.table as int == o.table
        &&& self.bundles@.len() == n
        &&& self.index <= n
        &&& self.models@.len() <= self.index
        &&& !self.finished ==> self.models@.len() == (if self.index == 0 {
            0
        } else {
            self.index - 1
        })
        &&& forall|i: int|
            #![trigger self.models@[i]]
            0 <= i < self.models@.len() ==> model_wf(s, self.models@[i]@) && self.models@[i].table == chain[i]
        &&& forall|j: int|
            #![trigger self.bundles@[j]]
            !self.finished && self.index <= j < n ==> self.bundles@[j] is Some && crate::builder_bundle::bundle_view(
                self.bundles@[j]->0,
            ) == o.bundles[j]
    }

    /// Starts the insertion of a builder.
    pub fn start(schema: &Schema, builder: TableBuilder) -> (r: BuilderInsertion)
        requires
            schema.wf(),
            builder_wf(*schema, builder@),
        ensures
            r.inv(*schema),
            r.initial@ == builder@,
            !r.finished,
            r.index == 0,
            r.models@.len() == 0,
    {
        let ghost o = builder@;
        let TableBuilder { table, bundles: mut bs } = builder;
        let ghost bs0 = bs@;
        let mut slots: Vec<Option<crate::builder_bundle::TableBuilderBundle>> = Vec::new();
        while bs.len() > 0
            invariant
                bs0.len() == slots@.len() + bs@.len(),
                forall|j: int| 0 <= j < slots@.len() ==> slots@[j] == Some(#[trigger] bs0[j]),
                forall|j: int| 0 <= j < bs@.len() ==> bs@[j] == bs0[slots@.len() + j],
            decreases bs.len(),
        {
            let b = bs.remove(0);
            slots.push(Some(b));
        }
        let r = BuilderInsertion {
            table,
            bundles: slots,
            index: 0,
            models: Vec::new(),
            finished: false,
            initial: Ghost(o),
        };
        proof {
            assert forall|j: int|
                #![trigger r.bundles@[j]]
                0 <= j < schema.chain(o.table).len() implies r.bundles@[j] is Some
                && crate::builder_bundle::bundle_view(r.bundles@[j]->0) == o.bundles[j] by {
                assert(slots@[j] == Some(bs0[j]));
                assert(o.bundles[j] == crate::builder_bundle::bundle_view(bs0[j]));
            }
        }
        r
    }
}

} // verus!

verus! {

/// Returns table `i` among the ancestors of `t` followed by `t`.
fn chain_table(schema: &Schema, t: usize, i: usize) -> (r: usize)
    requires
        schema.has_table(t as int),
        i < schema.chain(t as int).len(),
    ensures
        r == schema.chain(t as int)[i as int],
{
    if i < schema.tables[t].ancestors.len() {
        schema.tables[t].ancestors[i]
    } else {
        t
    }
}

impl BuilderInsertion {
    /// Takes the record of the last bundle started, if any, and returns the
    /// next bundle to insert: completed, and for every bundle but the root's,
    /// with its primary key set to the primary key of that record; or the
    /// record of the table's own bundle once all are inserted; or the error
    /// that stopped the insertion.
    pub fn next(&mut self, schema: &Schema, previous: Option<Model>) -> (step: BuilderStep)
        requires
            old(self).inv(*schema),
            !old(self).finished,
            old(self).index == 0 ==> previous is None,
            old(self).index > 0 ==> (previous matches Some(m) && model_wf(*schema, m@) && m.table
                == schema.chain(old(self).initial@.table)[old(self).index - 1]),
        ensures
            final(self).inv(*schema),
            final(self).initial == old(self).initial,
            0 < old(self).index < schema.chain(old(self).initial@.table).len() ==> final(self).models@
                == old(self).models@.push(previous->0),
            !(0 < old(self).index < schema.chain(old(self).initial@.table).len()) ==> final(self).models@
                == old(self).models@,
            ({
                let o = old(self).initial@;
                let chain = schema.chain(o.table);
                let i = old(self).index as int;
                match step {
                    BuilderStep::Done(m) => {
                        &&& i == chain.len()
                        &&& final(self).finished
                        &&& previous == Some(m)
                    },
                    BuilderStep::Bundle(bi) => {
                        &&& i < chain.len()
                        &&& final(self).index == i + 1
                        &&& !final(self).finished
                        &&& bi.inv(*schema)
                        &&& bi.stage == InsertionStage::Mandatory
                        &&& !bi.awaiting
                        &&& bi.mandatory_models@.len() == 0
                        &&& forall|k: int|
                            0 <= k < o.bundles[i].mandatory.len() ==> o.bundles[i].mandatory[k] is Some
                        &&& prepared_bundle(*schema, o, i, final(self).models@).1 is None
                        &&& bi.initial@ == prepared_bundle(*schema, o, i, final(self).models@).0
                    },
                    BuilderStep::Failed(e) => {
                        &&& i < chain.len()
                        &&& final(self).finished
                        &&& match e {
                            BuilderError::Incomplete(ie) => exists|k: int|
                                #[trigger] crate::completed_bundle::first_empty(o.bundles[i].mandatory, k)
                                    && ie == crate::completed_bundle::missing_builder_error(
                                    *schema,
                                    chain[i] as int,
                                    k,
                                ),
                            BuilderError::Validation(ve) => {
                                &&& i > 0
                                &&& forall|k: int|
                                    0 <= k < o.bundles[i].mandatory.len() ==> o.bundles[i].mandatory[k] is Some
                                &&& prepared_bundle(*schema, o, i, final(self).models@).1 == Some(ve)
                            },
                            BuilderError::Diesel(_) => false,
                        }
                    },
                }
            }),
    {
        let ghost o = self.initial@;
        let ghost chain = schema.chain(o.table);
        let i = self.index;
        let n = self.bundles.len();
        if i == n {
            self.finished = true;
            return BuilderStep::Done(previous.unwrap());
        }
        if i > 0 {
            self.models.push(previous.unwrap());
        }
        let mut slot: Option<crate::builder_bundle::TableBuilderBundle> = None;
        std::mem::swap(&mut slot, &mut self.bundles[i]);
        let bundle = slot.unwrap();
        let t_i = chain_table(schema, self.table, i);
        proof {
            assert(crate::builder_bundle::bundle_view(bundle) == o.bundles[i as int]);
            assert(crate::builder_bundle::bundle_wf(*schema, chain[i as int] as int, o.bundles[i as int]));
        }
        let completed = match CompletedTableBuilderBundle::try_from(schema, bundle) {
            Ok(c) => c,
            Err(e) => {
                self.finished = true;
                return BuilderStep::Failed(BuilderError::Incomplete(e));
            },
        };
        let mut completed = completed;
        proof {
            assert(completed@ =~= completed_of(o.bundles[i as int])) by {
                assert(completed@.mandatory =~= completed_of(o.bundles[i as int]).mandatory) by {
                    assert forall|k: int| 0 <= k < completed@.mandatory.len() implies completed@.mandatory[k]
                        == completed_of(o.bundles[i as int]).mandatory[k] by {
                        assert(o.bundles[i as int].mandatory[k] == Some(completed@.mandatory[k]));
                    }
                }
            }
        }
        if i > 0 {
            let prev_table = chain_table(schema, self.table, i - 1);
            let pk_prev = schema.tables[prev_table].primary_key;
            let pk_i = schema.tables[t_i].primary_key;
            proof {
                let m = self.models@[i - 1];
                assert(model_wf(*schema, m@));
                assert(schema.table_wf(o.table));
                assert(schema.table_wf(prev_table as int));
                assert(schema.table_wf(t_i as int));
                assert(crate::schema::fits(schema.column(prev_table as int, pk_prev as int), m.values@[pk_prev as int]));
                let anc = schema.tables@[o.table].ancestors@;
                if (i - 1) < anc.len() {
                    assert(anc[i - 1] == prev_table);
                }
                if i < anc.len() {
                    assert(anc[i as int] == t_i);
                }
            }
            let value = self.models[i - 1].values[pk_prev];
            let res = completed.try_set_column(schema, pk_i, value);
            if let Err(e) = res {
                self.finished = true;
                return BuilderStep::Failed(BuilderError::Validation(e));
            }
        }
        self.index = i + 1;
        BuilderStep::Bundle(BundleInsertion::start(schema, completed))
    }
}

} // verus!
