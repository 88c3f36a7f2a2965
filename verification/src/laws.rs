//! Properties of the library as a whole: what a read gives back after a
//! write, what a refused write leaves, how a value reaches the builders of
//! the same-as keys, and how dynamic reads agree with plain ones.
use vstd::prelude::*;
use crate::value::Value;
use crate::schema::{Schema, HorizontalKeyDef, same_as_target, fits, is_first_position};
use crate::model::{ModelView, model_wf, check_ok, column_error, default_slots};
use crate::builder_bundle::{
    BundleView, BuilderView, bundle_wf, builder_wf, bundle_try_set, builder_try_set, slot_try_set,
    discretionary_try_set, mandatory_try_set, table_position,
};
use crate::dynamic_columns::{DynColumn, dyn_value, chain_dyn_value, dyn_matches};
use crate::get_model::{nested_model_wf, nested_table};
use crate::buildable::is_new_builder;

verus! {

/// A value stored in a column of a bundle is read back from it.
pub proof fn law_bundle_read_after_write(s: Schema, bv: BundleView, c: int, v: Option<Value>)
    requires
        bundle_wf(s, bv.model.table, bv),
        s.has_column(bv.model.table, c),
        bundle_try_set(s, bv, c, v).1 is None,
    ensures
        bundle_try_set(s, bv, c, v).0.model.slots[c] == Some(v),
        bundle_try_set(s, bv, c, v).0.model.table == bv.model.table,
{
}

/// A value the column's validation rule refuses leaves the bundle as it
/// was, and the error names the column.
pub proof fn law_bundle_refusal_unchanged(s: Schema, bv: BundleView, c: int, v: Option<Value>)
    requires
        !check_ok(s, bv.model.table, c, v),
    ensures
        bundle_try_set(s, bv, c, v) == (bv, Some(column_error(s, bv.model.table, c))),
{
}

/// Setting a column of a bundle, whether it succeeds or not, changes no
/// other column of that bundle.
pub proof fn law_bundle_other_columns_unchanged(s: Schema, bv: BundleView, c: int, v: Option<Value>, d: int)
    requires
        bundle_wf(s, bv.model.table, bv),
        s.has_column(bv.model.table, c),
        s.has_column(bv.model.table, d),
        d != c,
    ensures
        bundle_try_set(s, bv, c, v).0.model.slots[d] == bv.model.slots[d],
        bundle_try_set(s, bv, c, v).0.model.table == bv.model.table,
{
}

/// When the builders of the discretionary keys all accept a value, each
/// of them is what passing the value on to it alone gives.
proof fn lemma_discretionary_success(
    s: Schema,
    slots: Seq<Option<BuilderView>>,
    keys: Seq<HorizontalKeyDef>,
    c: int,
    v: Option<Value>,
    pass_null: bool,
)
    requires
        keys.len() >= slots.len(),
        discretionary_try_set(s, slots, keys, c, v, pass_null).1 is None,
    ensures
        discretionary_try_set(s, slots, keys, c, v, pass_null).0.len() == slots.len(),
        forall|k: int|
            #![trigger discretionary_try_set(s, slots, keys, c, v, pass_null).0[k]]
            0 <= k < slots.len() ==> discretionary_try_set(s, slots, keys, c, v, pass_null).0[k] == slot_try_set(
                s,
                slots[k],
                keys[k],
                c,
                v,
                pass_null,
            ).0 && slot_try_set(s, slots[k], keys[k], c, v, pass_null).1 is None,
    decreases slots.len(),
{
    if slots.len() > 0 {
        let rest = discretionary_try_set(s, slots.skip(1), keys.skip(1), c, v, pass_null);
        lemma_discretionary_success(s, slots.skip(1), keys.skip(1), c, v, pass_null);
        assert forall|k: int| 0 < k < slots.len() implies slots.skip(1)[k - 1] == slots[k] && keys.skip(1)[k - 1]
            == keys[k] by {}
    }
}

/// When the builders of the mandatory keys all accept a value, each of
/// them is what passing the value on to it alone gives.
proof fn lemma_mandatory_success(
    s: Schema,
    slots: Seq<Option<BuilderView>>,
    keys: Seq<HorizontalKeyDef>,
    c: int,
    v: Option<Value>,
    pass_null: bool,
)
    requires
        keys.len() == slots.len(),
        mandatory_try_set(s, slots, keys, c, v, pass_null).1 is None,
    ensures
        mandatory_try_set(s, slots, keys, c, v, pass_null).0.len() == slots.len(),
        forall|k: int|
            #![trigger mandatory_try_set(s, slots, keys, c, v, pass_null).0[k]]
            0 <= k < slots.len() ==> mandatory_try_set(s, slots, keys, c, v, pass_null).0[k] == slot_try_set(
                s,
                slots[k],
                keys[k],
                c,
                v,
                pass_null,
            ).0 && slot_try_set(s, slots[k], keys[k], c, v, pass_null).1 is None,
    decreases slots.len(),
{
    if slots.len() > 0 {
        let n = slots.len() - 1;
        lemma_mandatory_success(s, slots.take(n), keys.take(n), c, v, pass_null);
        assert forall|k: int| 0 <= k < n implies slots.take(n)[k] == slots[k] && keys.take(n)[k] == keys[k] by {}
    }
}

/// A value stored in column `c` of the bundle of table `i` of a builder
/// is read back from it.
pub proof fn law_builder_read_after_write(s: Schema, b: BuilderView, i: int, c: int, v: Option<Value>)
    requires
        builder_wf(s, b),
        0 <= i < b.bundles.len(),
        s.has_column(b.bundles[i].model.table, c),
        builder_try_set(s, b, i, c, v).1 is None,
    ensures
        builder_try_set(s, b, i, c, v).0.bundles[i].model.slots[c] == Some(v),
        builder_try_set(s, b, i, c, v).0.bundles.len() == b.bundles.len(),
        builder_try_set(s, b, i, c, v).0.table == b.table,
{
    assert(bundle_wf(s, s.chain(b.table)[i] as int, b.bundles[i]));
    law_bundle_read_after_write(s, b.bundles[i], c, v);
}

/// The value that a builder of a same-as key receives is read back from
/// the shared column of the bundle of its own table.
proof fn lemma_slot_receives(
    s: Schema,
    t: int,
    k: HorizontalKeyDef,
    nb: BuilderView,
    c: usize,
    v: Option<Value>,
    f: usize,
    pass_null: bool,
)
    requires
        s.wf(),
        s.key_wf(t, k),
        nb.table == k.referenced_table as int,
        builder_wf(s, nb),
        v is Some || pass_null,
        same_as_target(k, c) == Some(f),
        slot_try_set(s, Some(nb), k, c as int, v, pass_null).1 is None,
    ensures
        slot_try_set(s, Some(nb), k, c as int, v, pass_null).0 matches Some(nb2) && nb2.bundles.len() == nb.bundles.len()
            && nb2.table == nb.table && nb2.bundles[nb.bundles.len() - 1].model.slots[f as int] == Some(v),
{
    let last = nb.bundles.len() - 1;
    let chain = s.chain(nb.table);
    assert(chain.len() >= 1);
    assert(bundle_wf(s, chain[last] as int, nb.bundles[last]));
    let p = choose|p: int| #[trigger] is_first_position(k.host_columns@, c, p);
    assert(k.host_columns@[p] == c);
    assert(f == k.foreign_columns@[p]);
    assert(s.has_column(k.referenced_table as int, k.foreign_columns@[p] as int));
    assert(chain[last] as int == nb.table);
    assert(nb.bundles[last].model.table == nb.table);
    law_builder_read_after_write(s, nb, last, f as int, v);
}

/// A value stored in a column of a bundle reaches every builder set for a
/// discretionary key that hosts the column, which stores it in the column
/// of its own table that the key pairs with it; a `NULL` is not passed on.
pub proof fn law_discretionary_same_as(s: Schema, bv: BundleView, c: usize, v: Option<Value>, k: int)
    requires
        s.wf(),
        bundle_wf(s, bv.model.table, bv),
        s.has_column(bv.model.table, c as int),
        fits(s.column(bv.model.table, c as int), v),
        bundle_try_set(s, bv, c as int, v).1 is None,
        0 <= k < bv.discretionary.len(),
        bv.discretionary[k] is Some,
        same_as_target(s.tables@[bv.model.table].discretionary_keys@[k], c) is Some,
    ensures
        ({
            let f = same_as_target(s.tables@[bv.model.table].discretionary_keys@[k], c)->Some_0;
            let nb = bv.discretionary[k]->Some_0;
            let after = bundle_try_set(s, bv, c as int, v).0.discretionary[k];
            &&& after is Some
            &&& v is Some ==> after->Some_0.bundles[nb.bundles.len() - 1].model.slots[f as int] == Some(v)
            &&& v is None ==> after == bv.discretionary[k]
        }),
{
    let t = bv.model.table;
    let keys = s.tables@[t].discretionary_keys@;
    assert(s.table_wf(t));
    assert(s.key_wf(t, keys[k]));
    lemma_discretionary_success(s, bv.discretionary, keys, c as int, v, false);
    let nb = bv.discretionary[k]->Some_0;
    assert(crate::builder_bundle::slot_wf(s, keys[k], bv.discretionary[k]));
    if v is Some {
        let f = same_as_target(keys[k], c)->Some_0;
        lemma_slot_receives(s, t, keys[k], nb, c, v, f, false);
    }
}

/// A value stored in a column of a bundle reaches every builder set for a
/// mandatory key that hosts the column, which stores it in the column of
/// its own table that the key pairs with it; a `NULL` is not passed on.
pub proof fn law_mandatory_same_as(s: Schema, bv: BundleView, c: usize, v: Option<Value>, k: int)
    requires
        s.wf(),
        bundle_wf(s, bv.model.table, bv),
        s.has_column(bv.model.table, c as int),
        fits(s.column(bv.model.table, c as int), v),
        bundle_try_set(s, bv, c as int, v).1 is None,
        0 <= k < bv.mandatory.len(),
        bv.mandatory[k] is Some,
        same_as_target(s.tables@[bv.model.table].mandatory_keys@[k], c) is Some,
    ensures
        ({
            let f = same_as_target(s.tables@[bv.model.table].mandatory_keys@[k], c)->Some_0;
            let nb = bv.mandatory[k]->Some_0;
            let after = bundle_try_set(s, bv, c as int, v).0.mandatory[k];
            &&& after is Some
            &&& v is Some ==> after->Some_0.bundles[nb.bundles.len() - 1].model.slots[f as int] == Some(v)
            &&& v is None ==> after == bv.mandatory[k]
        }),
{
    let t = bv.model.table;
    let keys = s.tables@[t].mandatory_keys@;
    assert(s.table_wf(t));
    assert(s.key_wf(t, keys[k]));
    let disc = discretionary_try_set(s, bv.discretionary, s.tables@[t].discretionary_keys@, c as int, v, false);
    assert(disc.1 is None);
    lemma_mandatory_success(s, bv.mandatory, keys, c as int, v, false);
    let nb = bv.mandatory[k]->Some_0;
    assert(crate::builder_bundle::slot_wf(s, keys[k], bv.mandatory[k]));
    if v is Some {
        let f = same_as_target(keys[k], c)->Some_0;
        lemma_slot_receives(s, t, keys[k], nb, c, v, f, false);
    }
}

/// Every column of a new builder holds its default, and no associated
/// builder is set.
pub proof fn law_new_builder_defaults(s: Schema, t: int, b: BuilderView, i: int, c: int)
    requires
        is_new_builder(s, t, b),
        0 <= i < b.bundles.len(),
        s.has_column(s.chain(t)[i] as int, c),
    ensures
        b.bundles[i].model.slots[c] == s.column(s.chain(t)[i] as int, c).default_value,
        forall|k: int| 0 <= k < b.bundles[i].mandatory.len() ==> b.bundles[i].mandatory[k] is None,
{
    assert(crate::buildable::is_new_bundle(s, s.chain(t)[i] as int, b.bundles[i]));
}

/// Reading a column of a record through its dynamic column gives the
/// record's value.
pub proof fn law_dynamic_read_agrees(s: Schema, m: ModelView, t: usize, c: usize)
    requires
        model_wf(s, m),
        m.table == t,
        s.has_column(t as int, c as int),
    ensures
        dyn_value(s, m, DynColumn::of_spec(s, t as int, c as int)) == Ok::<
            Option<Value>,
            crate::builder_error::DynamicColumnError,
        >(m.values[c as int]),
{
}

/// The first record of a chain holding the table of a dynamic column is
/// where the column is read.
proof fn lemma_chain_reads_first(s: Schema, ms: Seq<ModelView>, dc: DynColumn, p: int)
    requires
        0 <= p < ms.len(),
        dyn_matches(s, ms[p], dc),
        forall|j: int| 0 <= j < p ==> (#[trigger] ms[j]).table != dc.table as int,
    ensures
        chain_dyn_value(s, ms, dc) == Ok::<Option<Value>, crate::builder_error::DynamicColumnError>(
            ms[p].values[dc.column as int],
        ),
    decreases p,
{
    if p > 0 {
        assert(ms[0].table != dc.table as int);
        assert forall|j: int| 0 <= j < p - 1 implies (#[trigger] ms.drop_first()[j]).table != dc.table as int by {
            assert(ms.drop_first()[j] == ms[j + 1]);
        }
        lemma_chain_reads_first(s, ms.drop_first(), dc, p - 1);
    }
}

/// Reading a column of the table or of one of its ancestors through its
/// dynamic column, from the records of a table and its ancestors, gives
/// the value of that table's record.
pub proof fn law_dynamic_chain_read_agrees(s: Schema, ms: Seq<ModelView>, a: usize, c: usize)
    requires
        s.wf(),
        ms.len() > 0,
        nested_model_wf(s, nested_table(ms), ms),
        s.chain(nested_table(ms)).contains(a),
        s.has_column(a as int, c as int),
    ensures
        chain_dyn_value(s, ms, DynColumn::of_spec(s, a as int, c as int)) == Ok::<
            Option<Value>,
            crate::builder_error::DynamicColumnError,
        >(ms[table_position(s, nested_table(ms), a as int)].values[c as int]),
{
    let d = nested_table(ms);
    let chain = s.chain(d);
    let w = choose|w: int| 0 <= w < chain.len() && chain[w] == a;
    crate::get_model::lemma_first_position_exists(chain, a, w);
    let p = table_position(s, d, a as int);
    assert(is_first_position(chain, a, p));
    let dc = DynColumn::of_spec(s, a as int, c as int);
    assert(ms[p].table == chain[p] as int);
    assert(ms[p].table == a as int);
    assert forall|j: int| 0 <= j < p implies (#[trigger] ms[j]).table != dc.table as int by {
        assert(chain[j] != a);
        assert(ms[j].table == chain[j] as int);
    }
    lemma_chain_reads_first(s, ms, dc, p);
}

} // verus!

verus! {

/// Whether the key columns of the mandatory and discretionary keys of
/// table `t` are pairwise distinct.
pub open spec fn key_columns_distinct(s: Schema, t: int) -> bool {
    let cols = crate::insertion::mandatory_columns(s, t) + crate::insertion::discretionary_columns(s, t);
    forall|i: int, j: int| 0 <= i < j < cols.len() ==> cols[i] != cols[j]
}

/// Setting columns in order leaves in a column the value set last in it.
proof fn lemma_set_all_at(
    slots: Seq<Option<Option<Value>>>,
    cols: Seq<usize>,
    vals: Seq<Option<Value>>,
    k: int,
)
    requires
        cols.len() == vals.len(),
        0 <= k < cols.len(),
        forall|j: int| 0 <= j < cols.len() ==> cols[j] < slots.len(),
        forall|j: int| k < j < cols.len() ==> cols[j] != cols[k],
    ensures
        crate::model::set_all(slots, cols, vals)[cols[k] as int] == Some(vals[k]),
        crate::model::set_all(slots, cols, vals).len() == slots.len(),
    decreases cols.len(),
{
    lemma_set_all_len(slots, cols, vals);
    lemma_set_all_len(slots, cols.drop_last(), vals.drop_last());
    if k < cols.len() - 1 {
        lemma_set_all_at(slots, cols.drop_last(), vals.drop_last(), k);
    }
}

/// Setting columns in range keeps the number of columns.
proof fn lemma_set_all_len(slots: Seq<Option<Option<Value>>>, cols: Seq<usize>, vals: Seq<Option<Value>>)
    requires
        cols.len() == vals.len(),
        forall|j: int| 0 <= j < cols.len() ==> cols[j] < slots.len(),
    ensures
        crate::model::set_all(slots, cols, vals).len() == slots.len(),
    decreases cols.len(),
{
    if cols.len() > 0 {
        lemma_set_all_len(slots, cols.drop_last(), vals.drop_last());
    }
}

/// Setting other columns leaves a column as it was.
proof fn lemma_may_set_all_keeps(
    slots: Seq<Option<Option<Value>>>,
    cols: Seq<usize>,
    vals: Seq<Option<Option<Value>>>,
    x: int,
)
    requires
        cols.len() == vals.len(),
        0 <= x < slots.len(),
        forall|j: int| 0 <= j < cols.len() ==> cols[j] < slots.len() && cols[j] as int != x,
    ensures
        crate::model::may_set_all(slots, cols, vals)[x] == slots[x],
        crate::model::may_set_all(slots, cols, vals).len() == slots.len(),
    decreases cols.len(),
{
    if cols.len() > 0 {
        lemma_may_set_all_keeps(slots, cols.drop_last(), vals.drop_last(), x);
    }
}

/// Setting columns in range keeps the number of columns.
proof fn lemma_may_set_all_len(slots: Seq<Option<Option<Value>>>, cols: Seq<usize>, vals: Seq<Option<Option<Value>>>)
    requires
        cols.len() == vals.len(),
        forall|j: int| 0 <= j < cols.len() ==> cols[j] < slots.len(),
    ensures
        crate::model::may_set_all(slots, cols, vals).len() == slots.len(),
    decreases cols.len(),
{
    if cols.len() > 0 {
        lemma_may_set_all_len(slots, cols.drop_last(), vals.drop_last());
    }
}

/// Setting the columns that have a value, in order, leaves in a column the
/// value set last in it.
proof fn lemma_may_set_all_at(
    slots: Seq<Option<Option<Value>>>,
    cols: Seq<usize>,
    vals: Seq<Option<Option<Value>>>,
    k: int,
)
    requires
        cols.len() == vals.len(),
        0 <= k < cols.len(),
        forall|j: int| 0 <= j < cols.len() ==> cols[j] < slots.len(),
        forall|j: int| 0 <= j < cols.len() && j != k ==> cols[j] != cols[k],
    ensures
        crate::model::may_set_all(slots, cols, vals)[cols[k] as int] == (match vals[k] {
            Some(v) => Some(v),
            None => slots[cols[k] as int],
        }),
    decreases cols.len(),
{
    let n = cols.len() - 1;
    if k < n {
        lemma_may_set_all_at(slots, cols.drop_last(), vals.drop_last(), k);
        lemma_may_set_all_len(slots, cols.drop_last(), vals.drop_last());
    } else {
        lemma_may_set_all_keeps(slots, cols.drop_last(), vals.drop_last(), cols[k] as int);
    }
}

/// When the row of a bundle is inserted, each mandatory key column holds
/// the primary key of the record inserted for that key's builder, and each
/// discretionary key column holds the primary key of the record inserted
/// for its builder, or its own value when no builder was set; provided the
/// key columns of the table are distinct.
pub proof fn law_row_holds_key_records(s: Schema, ins: crate::insertion::BundleInsertion, k: int)
    requires
        ins.inv(s),
        ins.stage == crate::insertion::InsertionStage::Row,
        key_columns_distinct(s, ins.initial@.model.table),
    ensures
        ({
            let t = ins.initial@.model.table;
            let mkeys = s.tables@[t].mandatory_keys@;
            let slots = ins.insertable_model@.slots;
            0 <= k < mkeys.len() ==> slots[mkeys[k].key_column as int] == Some(
                ins.mandatory_models@[k].values@[s.pk(mkeys[k].referenced_table as int)],
            )
        }),
        ({
            let t = ins.initial@.model.table;
            let dkeys = s.tables@[t].discretionary_keys@;
            let slots = ins.insertable_model@.slots;
            0 <= k < dkeys.len() ==> slots[dkeys[k].key_column as int] == match ins.discretionary_models@[k] {
                Some(m) => Some(m.values@[s.pk(dkeys[k].referenced_table as int)]),
                None => ins.initial@.model.slots[dkeys[k].key_column as int],
            }
        }),
{
    let t = ins.initial@.model.table;
    let mkeys = s.tables@[t].mandatory_keys@;
    let dkeys = s.tables@[t].discretionary_keys@;
    let mcols = crate::insertion::mandatory_columns(s, t);
    let dcols = crate::insertion::discretionary_columns(s, t);
    let mvals = crate::insertion::mandatory_keys_values(s, t, ins.mandatory_models@);
    let dvals = crate::insertion::discretionary_keys_values(s, t, ins.discretionary_models@);
    let o = ins.initial@;
    let cols = mcols + dcols;
    assert(s.table_wf(t));
    assert(o.model.slots.len() == s.num_columns(t));
    assert forall|j: int| 0 <= j < mcols.len() implies mcols[j] < o.model.slots.len() by {
        assert(s.key_wf(t, mkeys[j]));
    }
    assert forall|j: int| 0 <= j < dcols.len() implies dcols[j] < o.model.slots.len() by {
        assert(s.key_wf(t, dkeys[j]));
    }
    let slots1 = crate::model::set_all(o.model.slots, mcols, mvals);
    lemma_set_all_len(o.model.slots, mcols, mvals);
    if 0 <= k < mkeys.len() {
        assert forall|j: int| k < j < mcols.len() implies mcols[j] != mcols[k] by {
            assert(cols[k] == mcols[k] && cols[j] == mcols[j]);
        }
        lemma_set_all_at(o.model.slots, mcols, mvals, k);
        assert forall|j: int| 0 <= j < dcols.len() implies dcols[j] < slots1.len() && dcols[j] as int
            != mcols[k] as int by {
            assert(cols[k] == mcols[k] && cols[mcols.len() + j] == dcols[j]);
        }
        lemma_may_set_all_keeps(slots1, dcols, dvals, mcols[k] as int);
    }
    if 0 <= k < dkeys.len() {
        assert forall|j: int| 0 <= j < dcols.len() && j != k implies dcols[j] != dcols[k] by {
            assert(cols[mcols.len() + k] == dcols[k] && cols[mcols.len() + j] == dcols[j]);
        }
        lemma_may_set_all_at(slots1, dcols, dvals, k);
        if ins.discretionary_models@[k] is None {
            let x = dcols[k] as int;
            assert forall|j: int| 0 <= j < mcols.len() implies mcols[j] as int != x by {
                assert(cols[j] == mcols[j] && cols[mcols.len() + k] == dcols[k]);
            }
            lemma_set_all_keeps(o.model.slots, mcols, mvals, x);
        }
    }
}

/// Setting other columns leaves a column as it was.
proof fn lemma_set_all_keeps(slots: Seq<Option<Option<Value>>>, cols: Seq<usize>, vals: Seq<Option<Value>>, x: int)
    requires
        cols.len() == vals.len(),
        0 <= x < slots.len(),
        forall|j: int| 0 <= j < cols.len() ==> cols[j] < slots.len() && cols[j] as int != x,
    ensures
        crate::model::set_all(slots, cols, vals)[x] == slots[x],
    decreases cols.len(),
{
    if cols.len() > 0 {
        lemma_set_all_keeps(slots, cols.drop_last(), vals.drop_last(), x);
        lemma_set_all_len(slots, cols.drop_last(), vals.drop_last());
    }
}

} // verus!

verus! {

/// A value stored in a column of a completed bundle, `NULL` included,
/// reaches every builder set for a discretionary key that hosts the column,
/// which stores it in the column of its own table that the key pairs with
/// it.
pub proof fn law_completed_discretionary_same_as(
    s: Schema,
    cv: crate::completed_bundle::CompletedView,
    c: usize,
    v: Option<Value>,
    k: int,
)
    requires
        s.wf(),
        crate::completed_bundle::completed_wf(s, cv.model.table, cv),
        s.has_column(cv.model.table, c as int),
        fits(s.column(cv.model.table, c as int), v),
        crate::completed_bundle::completed_try_set(s, cv, c as int, v).1 is None,
        0 <= k < cv.discretionary.len(),
        cv.discretionary[k] is Some,
        same_as_target(s.tables@[cv.model.table].discretionary_keys@[k], c) is Some,
    ensures
        ({
            let f = same_as_target(s.tables@[cv.model.table].discretionary_keys@[k], c)->Some_0;
            let nb = cv.discretionary[k]->Some_0;
            let after = crate::completed_bundle::completed_try_set(s, cv, c as int, v).0.discretionary[k];
            &&& after is Some
            &&& after->Some_0.bundles[nb.bundles.len() - 1].model.slots[f as int] == Some(v)
        }),
{
    let t = cv.model.table;
    let keys = s.tables@[t].discretionary_keys@;
    let bv = crate::completed_bundle::as_bundle(cv);
    assert(s.table_wf(t));
    assert(s.key_wf(t, keys[k]));
    assert(crate::model::check_ok(s, t, c as int, v));
    lemma_discretionary_success(s, bv.discretionary, keys, c as int, v, true);
    let nb = cv.discretionary[k]->Some_0;
    let after = discretionary_try_set(s, bv.discretionary, keys, c as int, v, true).0[k];
    assert(after == slot_try_set(s, Some(nb), keys[k], c as int, v, true).0);
    assert(crate::builder_bundle::slot_wf(s, keys[k], cv.discretionary[k]));
    let f = same_as_target(keys[k], c)->Some_0;
    lemma_slot_receives(s, t, keys[k], nb, c, v, f, true);
}

/// A value stored in a column of a completed bundle, `NULL` included,
/// reaches the builder of every mandatory key that hosts the column, which
/// stores it in the column of its own table that the key pairs with it.
pub proof fn law_completed_mandatory_same_as(
    s: Schema,
    cv: crate::completed_bundle::CompletedView,
    c: usize,
    v: Option<Value>,
    k: int,
)
    requires
        s.wf(),
        crate::completed_bundle::completed_wf(s, cv.model.table, cv),
        s.has_column(cv.model.table, c as int),
        fits(s.column(cv.model.table, c as int), v),
        crate::completed_bundle::completed_try_set(s, cv, c as int, v).1 is None,
        0 <= k < cv.mandatory.len(),
        same_as_target(s.tables@[cv.model.table].mandatory_keys@[k], c) is Some,
    ensures
        ({
            let f = same_as_target(s.tables@[cv.model.table].mandatory_keys@[k], c)->Some_0;
            let nb = cv.mandatory[k];
            let after = crate::completed_bundle::completed_try_set(s, cv, c as int, v).0.mandatory[k];
            after.bundles[nb.bundles.len() - 1].model.slots[f as int] == Some(v)
        }),
{
    let t = cv.model.table;
    let keys = s.tables@[t].mandatory_keys@;
    let bv = crate::completed_bundle::as_bundle(cv);
    assert(s.table_wf(t));
    assert(s.key_wf(t, keys[k]));
    assert(crate::model::check_ok(s, t, c as int, v));
    let disc = discretionary_try_set(s, bv.discretionary, s.tables@[t].discretionary_keys@, c as int, v, true);
    assert(disc.1 is None);
    assert(mandatory_try_set(s, bv.mandatory, keys, c as int, v, true).1 is None);
    lemma_mandatory_success(s, bv.mandatory, keys, c as int, v, true);
    let nb = cv.mandatory[k];
    assert(bv.mandatory[k] == Some(nb));
    let after = mandatory_try_set(s, bv.mandatory, keys, c as int, v, true).0[k];
    assert(after == slot_try_set(s, Some(nb), keys[k], c as int, v, true).0);
    assert(crate::builder_bundle::slot_wf(s, keys[k], Some(nb)));
    let f = same_as_target(keys[k], c)->Some_0;
    lemma_slot_receives(s, t, keys[k], nb, c, v, f, true);
}

} // verus!

verus! {

/// Setting a column of the bundle of one table of a builder leaves the
/// bundles of the other tables as they were.
pub proof fn law_builder_other_bundles_unchanged(s: Schema, b: BuilderView, i: int, c: int, v: Option<Value>, j: int)
    requires
        0 <= i < b.bundles.len(),
        0 <= j < b.bundles.len(),
        j != i,
    ensures
        builder_try_set(s, b, i, c, v).0.bundles[j] == b.bundles[j],
{
}

/// A value the column's validation rule refuses leaves the builder as it
/// was, and the error names the column.
pub proof fn law_builder_refusal_unchanged(s: Schema, b: BuilderView, i: int, c: int, v: Option<Value>)
    requires
        0 <= i < b.bundles.len(),
        !check_ok(s, b.bundles[i].model.table, c, v),
    ensures
        builder_try_set(s, b, i, c, v).0 == b,
        builder_try_set(s, b, i, c, v).1 == Some(column_error(s, b.bundles[i].model.table, c)),
{
    assert(b.bundles.update(i, b.bundles[i]) =~= b.bundles);
}

} // verus!

verus! {

/// The tables of a hierarchy share the kind of their primary keys: every
/// ancestor of a table has a primary key of the kind of the table's.
pub proof fn law_ancestors_share_primary_key_kind(s: Schema, t: int, k: int)
    requires
        s.wf(),
        s.has_table(t),
        0 <= k < s.tables@[t].ancestors@.len(),
    ensures
        ({
            let a = s.tables@[t].ancestors@[k] as int;
            s.column(a, s.pk(a)).kind == s.column(t, s.pk(t)).kind
        }),
{
    assert(s.table_wf(t));
}

/// The row of a bundle is inserted only once a record was inserted for
/// the builder of every mandatory key, each of the table the key
/// references.
pub proof fn law_row_after_key_builders(s: Schema, ins: crate::insertion::BundleInsertion)
    requires
        ins.inv(s),
        ins.stage == crate::insertion::InsertionStage::Row,
    ensures
        ins.mandatory_models@.len() == s.tables@[ins.initial@.model.table].mandatory_keys@.len(),
        ins.discretionary_models@.len() == s.tables@[ins.initial@.model.table].discretionary_keys@.len(),
        forall|k: int|
            #![trigger ins.mandatory_models@[k]]
            0 <= k < ins.mandatory_models@.len() ==> ins.mandatory_models@[k].table
                == s.tables@[ins.initial@.model.table].mandatory_keys@[k].referenced_table,
        forall|k: int|
            #![trigger ins.discretionary_models@[k]]
            0 <= k < ins.discretionary_models@.len() ==> (ins.discretionary_models@[k] is Some
                <==> ins.initial@.discretionary[k] is Some),
{
}

/// Tables none of whose foreign keys reference an index list no host
/// columns for it, and are never refused.
pub proof fn law_unreferenced_index_lists_nothing(s: Schema, tables: Seq<usize>, index: Seq<DynColumn>)
    requires
        forall|i: int, k: int|
            0 <= i < tables.len() && 0 <= k < s.tables@[tables[i] as int].foreign_keys@.len()
                ==> !crate::foreign_keys::fk_references(#[trigger] s.tables@[tables[i] as int].foreign_keys@[k], index),
    ensures
        crate::foreign_keys::tables_fk_matches(s, tables, index) == Ok::<
            Seq<Seq<DynColumn>>,
            crate::builder_error::DynamicColumnError,
        >(Seq::empty()),
    decreases tables.len(),
{
    if tables.len() > 0 {
        let pre = tables.drop_last();
        assert forall|i: int, k: int|
            0 <= i < pre.len() && 0 <= k < s.tables@[pre[i] as int].foreign_keys@.len() implies !crate::foreign_keys::fk_references(
            #[trigger] s.tables@[pre[i] as int].foreign_keys@[k],
            index,
        ) by {
            assert(pre[i] == tables[i]);
        }
        law_unreferenced_index_lists_nothing(s, pre, index);
        let last = tables.last() as int;
        let fks = s.tables@[last].foreign_keys@;
        assert forall|k: int| 0 <= k < fks.len() implies !crate::foreign_keys::fk_references(#[trigger] fks[k], index) by {
            assert(tables[tables.len() - 1] == tables.last());
        }
        lemma_unreferenced_fks(s, last, fks, index);
        assert(Seq::<Seq<DynColumn>>::empty() + Seq::<Seq<DynColumn>>::empty() =~= Seq::<Seq<DynColumn>>::empty());
    }
}

/// Foreign keys none of which reference an index list no host columns for
/// it.
proof fn lemma_unreferenced_fks(s: Schema, t: int, fks: Seq<crate::schema::ForeignKeyDef>, index: Seq<DynColumn>)
    requires
        forall|k: int| 0 <= k < fks.len() ==> !crate::foreign_keys::fk_references(#[trigger] fks[k], index),
    ensures
        crate::foreign_keys::fks_matches(s, t, fks, index) == Ok::<
            Seq<Seq<DynColumn>>,
            crate::builder_error::DynamicColumnError,
        >(Seq::empty()),
    decreases fks.len(),
{
    if fks.len() > 0 {
        let pre = fks.drop_last();
        assert forall|k: int| 0 <= k < pre.len() implies !crate::foreign_keys::fk_references(#[trigger] pre[k], index) by {
            assert(pre[k] == fks[k]);
        }
        lemma_unreferenced_fks(s, t, pre, index);
        assert(!crate::foreign_keys::fk_references(fks[fks.len() - 1], index));
    }
}

} // verus!
