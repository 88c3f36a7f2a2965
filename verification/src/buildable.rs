//! Builders and bundles for tables and for collections of tables, the
//! tables and primary keys that a table's triangular keys reference, and
//! the join of a table with its ancestors.
use vstd::prelude::*;
use crate::schema::{Schema, HorizontalKeyDef};
use crate::builder_bundle::{TableBuilder, TableBuilderBundle, builder_wf, bundle_wf, BuilderView, BundleView};
use crate::hierarchy::{Hierarchy, BundlableTable, DescendantWithSelf};
use crate::insertion::{referenced_pk_columns, referenced_primary_keys};
use crate::model::default_slots;

verus! {

/// Whether builder `b` is the new builder of table `t`: a new bundle for
/// each table of its chain, with default values and no associated builder.
pub open spec fn is_new_builder(s: Schema, t: int, b: BuilderView) -> bool {
    &&& b.table == t
    &&& builder_wf(s, b)
    &&& forall|i: int|
        #![trigger b.bundles[i]]
        0 <= i < b.bundles.len() ==> is_new_bundle(s, s.chain(t)[i] as int, b.bundles[i])
}

/// Whether bundle `bv` is the new bundle of table `t`: default values and
/// no associated builder.
pub open spec fn is_new_bundle(s: Schema, t: int, bv: BundleView) -> bool {
    &&& bundle_wf(s, t, bv)
    &&& bv.model.slots == default_slots(s, t)
    &&& forall|k: int| 0 <= k < bv.mandatory.len() ==> bv.mandatory[k] is None
    &&& forall|k: int| 0 <= k < bv.discretionary.len() ==> bv.discretionary[k] is None
}

/// Tables for which builders can be made.
pub trait BuildableTable: Hierarchy {
    /// Returns the new builder of table `t`.
    fn builder(&self, t: usize) -> (r: TableBuilder)
        requires
            self.valid_table(t as int),
        ensures
            r@.table == t,
    ;

    /// Returns the new bundles of table `t`: one for each of its ancestors,
    /// root first, and one for `t`.
    fn default_bundles(&self, t: usize) -> (r: Vec<TableBuilderBundle>)
        requires
            self.valid_table(t as int),
        ensures
            r@.len() == self.chain_of(t as int).len(),
    ;
}

impl BuildableTable for Schema {
    fn builder(&self, t: usize) -> (r: TableBuilder)
        ensures
            is_new_builder(*self, t as int, r@),
    {
        let r = TableBuilder::new(self, t);
        proof {
            assert forall|i: int| 0 <= i < r@.bundles.len() implies is_new_bundle(
                *self,
                self.chain(t as int)[i] as int,
                #[trigger] r@.bundles[i],
            ) by {
                assert(bundle_wf(*self, self.chain(t as int)[i] as int, r@.bundles[i]));
            }
        }
        r
    }

    fn default_bundles(&self, t: usize) -> (r: Vec<TableBuilderBundle>)
        ensures
            forall|i: int|
                #![trigger r@[i]]
                0 <= i < r@.len() ==> is_new_bundle(*self, self.chain(t as int)[i] as int, r@[i]@),
    {
        let b = self.builder(t);
        proof {
            assert forall|i: int| 0 <= i < b.bundles@.len() implies is_new_bundle(
                *self,
                self.chain(t as int)[i] as int,
                #[trigger] b.bundles@[i]@,
            ) by {
                assert(b@.bundles[i] == b.bundles@[i]@);
            }
        }
        b.bundles
    }
}

/// Collections of tables for which builders can be made together.
pub trait NestedBuildableTables: BuildableTable {
    /// Returns the new builder of each table of `tables`, in order.
    fn nested_builders(&self, tables: &Vec<usize>) -> (r: Vec<TableBuilder>)
        requires
            forall|i: int| 0 <= i < tables@.len() ==> self.valid_table(#[trigger] tables@[i] as int),
        ensures
            r@.len() == tables@.len(),
            forall|i: int| #![trigger r@[i]] 0 <= i < r@.len() ==> r@[i]@.table == tables@[i],
    ;
}

impl NestedBuildableTables for Schema {
    fn nested_builders(&self, tables: &Vec<usize>) -> (r: Vec<TableBuilder>)
        ensures
            forall|i: int| #![trigger r@[i]] 0 <= i < r@.len() ==> is_new_builder(*self, tables@[i] as int, r@[i]@),
    {
        let mut out: Vec<TableBuilder> = Vec::new();
        let mut i: usize = 0;
        while i < tables.len()
            invariant
                i <= tables@.len(),
                out@.len() == i,
                forall|i: int| 0 <= i < tables@.len() ==> self.valid_table(#[trigger] tables@[i] as int),
                forall|k: int| #![trigger out@[k]] 0 <= k < i ==> is_new_builder(*self, tables@[k] as int, out@[k]@),
            decreases tables.len() - i,
        {
            assert(self.valid_table(tables@[i as int] as int));
            out.push(self.builder(tables[i]));
            i += 1;
        }
        out
    }
}

/// Collections of tables for which optional builders can be held together.
pub trait BuildableTables: NestedBuildableTables {
    /// Returns one empty slot per table of `tables`.
    fn optional_builders(&self, tables: &Vec<usize>) -> (r: Vec<Option<TableBuilder>>)
        ensures
            r@.len() == tables@.len(),
            forall|i: int| 0 <= i < r@.len() ==> (#[trigger] r@[i]) is None,
    {
        let mut out: Vec<Option<TableBuilder>> = Vec::new();
        let mut i: usize = 0;
        while i < tables.len()
            invariant
                i <= tables@.len(),
                out@.len() == i,
                forall|k: int| 0 <= k < i ==> (#[trigger] out@[k]) is None,
            decreases tables.len() - i,
        {
            out.push(None);
            i += 1;
        }
        out
    }
}

impl BuildableTables for Schema {}

/// Collections of tables for which bundles can be made together.
pub trait BundlableTables: BundlableTable {
    /// Returns the new bundle of each table of `tables`, in order.
    fn builder_bundles(&self, tables: &Vec<usize>) -> (r: Vec<TableBuilderBundle>)
        requires
            forall|i: int| 0 <= i < tables@.len() ==> self.valid_table(#[trigger] tables@[i] as int),
        ensures
            r@.len() == tables@.len(),
            forall|i: int| #![trigger r@[i]] 0 <= i < r@.len() ==> r@[i]@.model.table == tables@[i],
    ;
}

impl BundlableTables for Schema {
    fn builder_bundles(&self, tables: &Vec<usize>) -> (r: Vec<TableBuilderBundle>)
        ensures
            forall|i: int| #![trigger r@[i]] 0 <= i < r@.len() ==> is_new_bundle(*self, tables@[i] as int, r@[i]@),
    {
        let mut out: Vec<TableBuilderBundle> = Vec::new();
        let mut i: usize = 0;
        while i < tables.len()
            invariant
                i <= tables@.len(),
                out@.len() == i,
                forall|i: int| 0 <= i < tables@.len() ==> self.valid_table(#[trigger] tables@[i] as int),
                forall|k: int| #![trigger out@[k]] 0 <= k < i ==> is_new_bundle(*self, tables@[k] as int, out@[k]@),
            decreases tables.len() - i,
        {
            assert(self.valid_table(tables@[i as int] as int));
            let b = TableBuilderBundle::new(self, tables[i]);
            out.push(b);
            i += 1;
        }
        out
    }
}

/// The tables that keys `keys` reference.
pub open spec fn referenced_tables(keys: Seq<HorizontalKeyDef>) -> Seq<usize> {
    keys.map_values(|k: HorizontalKeyDef| k.referenced_table)
}

/// Returns the tables that keys `keys` reference.
fn collect_referenced_tables(keys: &Vec<HorizontalKeyDef>) -> (r: Vec<usize>)
    ensures
        r@ == referenced_tables(keys@),
{
    let mut out: Vec<usize> = Vec::new();
    let mut i: usize = 0;
    while i < keys.len()
        invariant
            i <= keys@.len(),
            out@ == referenced_tables(keys@.take(i as int)),
        decreases keys.len() - i,
    {
        out.push(keys[i].referenced_table);
        assert(referenced_tables(keys@.take(i + 1)) =~= referenced_tables(keys@.take(i as int)).push(
            keys@[i as int].referenced_table,
        ));
        i += 1;
    }
    assert(keys@.take(keys@.len() as int) =~= keys@);
    out
}

/// The tables and primary keys that a table's triangular keys reference.
pub trait BundlableTableExt: BundlableTable {
    /// Returns the tables that the mandatory keys of table `t` reference.
    fn mandatory_tables(&self, t: usize) -> (r: Vec<usize>)
        requires
            self.valid_table(t as int),
        ensures
            r@ == referenced_tables(self.mandatory_keys_of(t as int)),
    ;

    /// Returns the tables that the discretionary keys of table `t`
    /// reference.
    fn discretionary_tables(&self, t: usize) -> (r: Vec<usize>)
        requires
            self.valid_table(t as int),
        ensures
            r@ == referenced_tables(self.discretionary_keys_of(t as int)),
    ;

    /// Returns the primary key column of each table that the mandatory keys
    /// of table `t` reference.
    fn mandatory_primary_keys(&self, t: usize) -> (r: Vec<usize>)
        requires
            self.valid_table(t as int),
        ensures
            r@.len() == self.mandatory_keys_of(t as int).len(),
            forall|k: int|
                #![trigger r@[k]]
                0 <= k < r@.len() ==> r@[k] as int == self.primary_key_of(
                    self.mandatory_keys_of(t as int)[k].referenced_table as int,
                ),
    ;

    /// Returns the primary key column of each table that the discretionary
    /// keys of table `t` reference.
    fn discretionary_primary_keys(&self, t: usize) -> (r: Vec<usize>)
        requires
            self.valid_table(t as int),
        ensures
            r@.len() == self.discretionary_keys_of(t as int).len(),
            forall|k: int|
                #![trigger r@[k]]
                0 <= k < r@.len() ==> r@[k] as int == self.primary_key_of(
                    self.discretionary_keys_of(t as int)[k].referenced_table as int,
                ),
    ;
}

impl BundlableTableExt for Schema {
    fn mandatory_tables(&self, t: usize) -> (r: Vec<usize>) {
        collect_referenced_tables(&self.tables[t].mandatory_keys)
    }

    fn discretionary_tables(&self, t: usize) -> (r: Vec<usize>) {
        collect_referenced_tables(&self.tables[t].discretionary_keys)
    }

    fn mandatory_primary_keys(&self, t: usize) -> (r: Vec<usize>) {
        proof {
            assert(self.table_wf(t as int));
            assert forall|k: int| 0 <= k < self.tables@[t as int].mandatory_keys@.len() implies self.has_table(
                (#[trigger] self.tables@[t as int].mandatory_keys@[k]).referenced_table as int,
            ) by {
                assert(self.key_wf(t as int, self.tables@[t as int].mandatory_keys@[k]));
            }
        }
        referenced_primary_keys(self, &self.tables[t].mandatory_keys)
    }

    fn discretionary_primary_keys(&self, t: usize) -> (r: Vec<usize>) {
        proof {
            assert(self.table_wf(t as int));
            assert forall|k: int| 0 <= k < self.tables@[t as int].discretionary_keys@.len() implies self.has_table(
                (#[trigger] self.tables@[t as int].discretionary_keys@[k]).referenced_table as int,
            ) by {
                assert(self.key_wf(t as int, self.tables@[t as int].discretionary_keys@[k]));
            }
        }
        referenced_primary_keys(self, &self.tables[t].discretionary_keys)
    }
}

/// The inner join of a table with its ancestors on their shared primary
/// key.
pub trait NestedInnerJoin: DescendantWithSelf {
    /// Returns, for the ancestors of table `t` followed by `t`, each table
    /// with its primary key column: the columns the join equates.
    fn nested_inner_join(&self, t: usize) -> (r: Vec<(usize, usize)>)
        requires
            self.valid_table(t as int),
        ensures
            r@ == self.chain_of(t as int).map_values(|a: usize| (a, self.primary_key_of(a as int) as usize)),
    ;
}

impl NestedInnerJoin for Schema {
    fn nested_inner_join(&self, t: usize) -> (r: Vec<(usize, usize)>) {
        let chain = self.ancestors_with_self(t);
        let ghost f = |a: usize| (a, self.primary_key_of(a as int) as usize);
        let mut out: Vec<(usize, usize)> = Vec::new();
        let mut i: usize = 0;
        while i < chain.len()
            invariant
                i <= chain@.len(),
                chain@ == self.chain_of(t as int),
                self.wf(),
                self.has_table(t as int),
                f == (|a: usize| (a, self.primary_key_of(a as int) as usize)),
                out@ == chain@.take(i as int).map_values(f),
            decreases chain.len() - i,
        {
            let a = chain[i];
            proof {
                assert(self.table_wf(t as int));
                if (i as int) < self.tables@[t as int].ancestors@.len() {
                    assert(0 <= self.tables@[t as int].ancestors@[i as int] < t);
                }
            }
            out.push((a, self.tables[a].primary_key));
            assert(chain@.take(i + 1).map_values(f) =~= chain@.take(i as int).map_values(f).push(f(a)));
            i += 1;
        }
        assert(chain@.take(chain@.len() as int) =~= chain@);
        out
    }
}

} // verus!
