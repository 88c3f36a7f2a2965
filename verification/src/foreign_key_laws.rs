//! Properties of the listing of the foreign keys that reference an index:
//! each listed group pairs, position by position, the host columns of one
//! foreign key with the columns of the index, and the values read through a
//! group follow the index in the same way.
use vstd::prelude::*;
use crate::value::Value;
use crate::schema::{Schema, ForeignKeyDef};
use crate::model::{Model, model_wf};
use crate::builder_error::DynamicColumnError;
use crate::dynamic_columns::{DynColumn, TryGetDynamicColumn, dyn_values};
use crate::foreign_keys::{
    fk_outcome, fks_matches, tables_fk_matches, kind_mismatch_at, index_wf, simple_items,
};

verus! {

/// Whether group `g` pairs foreign key `f` of table `t` with `index`: `f`
/// references exactly the columns of `index`, in order, and position `j`
/// of `g` is the host column of `f` paired with the `j`-th column of
/// `index`, read with the kind of that index column, which is the kind of
/// the referenced column.
pub open spec fn group_pairs_index(s: Schema, t: int, f: ForeignKeyDef, index: Seq<DynColumn>, g: Seq<DynColumn>) -> bool {
    &&& g.len() == index.len()
    &&& f.referenced_columns@.len() == index.len()
    &&& forall|j: int|
        #![trigger g[j]]
        0 <= j < g.len() ==> {
            &&& index[j].table == f.referenced_table
            &&& index[j].column == f.referenced_columns@[j]
            &&& g[j].table as int == t
            &&& g[j].column == f.host_columns@[j]
            &&& g[j].kind == index[j].kind
            &&& index[j].kind == s.column(f.referenced_table as int, f.referenced_columns@[j] as int).kind
        }
}

/// A column read with another kind than its referenced column's leaves a
/// first such column.
proof fn lemma_first_mismatch(s: Schema, f: ForeignKeyDef, index: Seq<DynColumn>, j: int)
    requires
        0 <= j < index.len(),
        index[j].kind != s.column(f.referenced_table as int, f.referenced_columns@[j] as int).kind,
    ensures
        exists|q: int| kind_mismatch_at(s, f, index, q),
    decreases j,
{
    if exists|k: int| 0 <= k < j && index[k].kind != s.column(f.referenced_table as int, f.referenced_columns@[k] as int).kind {
        let k = choose|k: int|
            0 <= k < j && index[k].kind != s.column(f.referenced_table as int, f.referenced_columns@[k] as int).kind;
        lemma_first_mismatch(s, f, index, k);
    } else {
        assert(kind_mismatch_at(s, f, index, j));
    }
}

/// What one foreign key contributes, when it contributes a group, pairs
/// that key with the index.
proof fn lemma_outcome_pairs(s: Schema, t: int, f: ForeignKeyDef, index: Seq<DynColumn>)
    requires
        0 <= t <= usize::MAX,
        fk_outcome(s, t, f, index) matches Some(Ok(_)),
    ensures
        group_pairs_index(s, t, f, index, fk_outcome(s, t, f, index)->Some_0->Ok_0),
{
    let g = fk_outcome(s, t, f, index)->Some_0->Ok_0;
    assert(g == crate::foreign_keys::host_dyn_columns(t, f, index));
    assert forall|j: int| 0 <= j < index.len() implies index[j].kind == s.column(
        f.referenced_table as int,
        f.referenced_columns@[j] as int,
    ).kind by {
        if index[j].kind != s.column(f.referenced_table as int, f.referenced_columns@[j] as int).kind {
            lemma_first_mismatch(s, f, index, j);
        }
    }
}

/// Every group listed for the foreign keys `fks` of table `t` pairs one of
/// them with `index`.
proof fn lemma_fks_group_pairs(s: Schema, t: int, fks: Seq<ForeignKeyDef>, index: Seq<DynColumn>, i: int)
    requires
        0 <= t <= usize::MAX,
        fks_matches(s, t, fks, index) is Ok,
        0 <= i < fks_matches(s, t, fks, index)->Ok_0.len(),
    ensures
        exists|k: int|
            0 <= k < fks.len() && #[trigger] group_pairs_index(s, t, fks[k], index, fks_matches(s, t, fks, index)->Ok_0[i]),
    decreases fks.len(),
{
    let pre = fks.drop_last();
    let g = fks_matches(s, t, pre, index)->Ok_0;
    let gs = fks_matches(s, t, fks, index)->Ok_0;
    if i < g.len() {
        lemma_fks_group_pairs(s, t, pre, index, i);
        let k = choose|k: int| 0 <= k < pre.len() && #[trigger] group_pairs_index(s, t, pre[k], index, g[i]);
        assert(pre[k] == fks[k]);
        assert(gs[i] == g[i]);
        assert(group_pairs_index(s, t, fks[k], index, gs[i]));
    } else {
        lemma_outcome_pairs(s, t, fks.last(), index);
        assert(gs[i] == fk_outcome(s, t, fks.last(), index)->Some_0->Ok_0);
        assert(fks[fks.len() - 1] == fks.last());
        assert(group_pairs_index(s, t, fks[fks.len() - 1], index, gs[i]));
    }
}

/// Each group that the listing of the foreign keys of `tables` referencing
/// `index` gives comes from one foreign key of one of these tables that
/// references exactly the columns of `index`: at each position `j` it holds
/// the host column paired with the `j`-th column of `index`, read with that
/// column's kind.
pub proof fn law_fk_groups_pair_with_index(s: Schema, tables: Seq<usize>, index: Seq<DynColumn>, i: int)
    requires
        tables_fk_matches(s, tables, index) is Ok,
        0 <= i < tables_fk_matches(s, tables, index)->Ok_0.len(),
    ensures
        exists|p: int, k: int|
            0 <= p < tables.len() && 0 <= k < s.tables@[tables[p] as int].foreign_keys@.len()
                && #[trigger] group_pairs_index(
                s,
                tables[p] as int,
                s.tables@[tables[p] as int].foreign_keys@[k],
                index,
                tables_fk_matches(s, tables, index)->Ok_0[i],
            ),
    decreases tables.len(),
{
    let pre = tables.drop_last();
    let g = tables_fk_matches(s, pre, index)->Ok_0;
    let gs = tables_fk_matches(s, tables, index)->Ok_0;
    let last = tables.last() as int;
    let fks = s.tables@[last].foreign_keys@;
    if i < g.len() {
        law_fk_groups_pair_with_index(s, pre, index, i);
        let (p, k) = choose|p: int, k: int|
            0 <= p < pre.len() && 0 <= k < s.tables@[pre[p] as int].foreign_keys@.len()
                && #[trigger] group_pairs_index(
                s,
                pre[p] as int,
                s.tables@[pre[p] as int].foreign_keys@[k],
                index,
                g[i],
            );
        assert(pre[p] == tables[p]);
        assert(gs[i] == g[i]);
        assert(group_pairs_index(s, tables[p] as int, s.tables@[tables[p] as int].foreign_keys@[k], index, gs[i]));
    } else {
        let h = fks_matches(s, last, fks, index)->Ok_0;
        assert(gs[i] == h[i - g.len()]);
        lemma_fks_group_pairs(s, last, fks, index, i - g.len());
        let k = choose|k: int| 0 <= k < fks.len() && #[trigger] group_pairs_index(s, last, fks[k], index, h[i - g.len()]);
        assert(tables[tables.len() - 1] == tables.last());
        assert(group_pairs_index(
            s,
            tables[tables.len() - 1] as int,
            s.tables@[tables[tables.len() - 1] as int].foreign_keys@[k],
            index,
            gs[i],
        ));
    }
}

/// Reading columns of a record that all belong to its table, each with the
/// kind of its values, gives their values, in order.
proof fn lemma_record_values(s: Schema, m: Model, g: Seq<DynColumn>)
    requires
        forall|j: int|
            #![trigger g[j]]
            0 <= j < g.len() ==> g[j].table == m.table && s.column(g[j].table as int, g[j].column as int).kind
                == g[j].kind,
    ensures
        dyn_values(m, s, g) == Ok::<Seq<Option<Value>>, DynamicColumnError>(
            Seq::new(g.len(), |j: int| m.values@[g[j].column as int]),
        ),
    decreases g.len(),
{
    if g.len() > 0 {
        let rest = g.drop_first();
        assert forall|j: int| 0 <= j < rest.len() implies rest[j].table == m.table && s.column(
            rest[j].table as int,
            rest[j].column as int,
        ).kind == rest[j].kind by {
            assert(rest[j] == g[j + 1]);
        }
        lemma_record_values(s, m, rest);
        assert(g[0].table == m.table);
        assert(seq![m.values@[g[0].column as int]] + Seq::new(rest.len(), |j: int| m.values@[rest[j].column as int])
            =~= Seq::new(g.len(), |j: int| m.values@[g[j].column as int]));
    } else {
        assert(Seq::new(g.len(), |j: int| m.values@[g[j].column as int]) =~= Seq::<Option<Value>>::empty());
    }
}

/// For a record, each item of the simple match of the foreign keys of its
/// table that reference `index` reads one such foreign key: it succeeds, and
/// its value at position `j` is the record's value in the host column
/// paired with the `j`-th column of `index`.
pub proof fn law_fk_values_follow_index(s: Schema, m: Model, index: Seq<DynColumn>, i: int)
    requires
        s.wf(),
        model_wf(s, m@),
        index_wf(s, index),
        tables_fk_matches(s, seq![m.table], index) is Ok,
        0 <= i < tables_fk_matches(s, seq![m.table], index)->Ok_0.len(),
    ensures
        exists|k: int|
            0 <= k < s.tables@[m.table as int].foreign_keys@.len() && ({
                let f = #[trigger] s.tables@[m.table as int].foreign_keys@[k];
                &&& f.referenced_columns@.len() == index.len()
                &&& forall|j: int|
                    0 <= j < index.len() ==> (#[trigger] index[j]).table == f.referenced_table && index[j].column
                        == f.referenced_columns@[j]
                &&& simple_items(m, s, tables_fk_matches(s, seq![m.table], index)->Ok_0)[i] == Ok::<
                    Seq<Option<Value>>,
                    DynamicColumnError,
                >(Seq::new(index.len(), |j: int| m.values@[f.host_columns@[j] as int]))
            }),
{
    let gs = tables_fk_matches(s, seq![m.table], index)->Ok_0;
    law_fk_groups_pair_with_index(s, seq![m.table], index, i);
    let (p, k) = choose|p: int, k: int|
        0 <= p < seq![m.table].len() && 0 <= k < s.tables@[seq![m.table][p] as int].foreign_keys@.len()
            && #[trigger] group_pairs_index(
            s,
            seq![m.table][p] as int,
            s.tables@[seq![m.table][p] as int].foreign_keys@[k],
            index,
            gs[i],
        );
    assert(p == 0);
    let t = m.table as int;
    let f = s.tables@[t].foreign_keys@[k];
    let g = gs[i];
    assert(s.table_wf(t));
    assert(s.foreign_key_wf(t, f));
    assert forall|j: int|
        #![trigger g[j]]
        0 <= j < g.len() implies g[j].table == m.table && s.column(g[j].table as int, g[j].column as int).kind
        == g[j].kind by {
        assert(f.host_columns@[j] == g[j].column);
    }
    lemma_record_values(s, m, g);
    assert(Seq::new(g.len(), |j: int| m.values@[g[j].column as int]) =~= Seq::new(
        index.len(),
        |j: int| m.values@[f.host_columns@[j] as int],
    ));
    assert(simple_items(m, s, gs)[i] == dyn_values(m, s, g));
    assert(forall|j: int|
        0 <= j < index.len() ==> (#[trigger] index[j]).table == f.referenced_table && index[j].column
            == f.referenced_columns@[j]) by {
        assert forall|j: int| 0 <= j < index.len() implies (#[trigger] index[j]).table == f.referenced_table
            && index[j].column == f.referenced_columns@[j] by {
            assert(g[j].column == f.host_columns@[j]);
        }
    }
    assert(s.tables@[m.table as int].foreign_keys@[k] == f);
}

} // verus!

verus! {

/// Values read through several dynamic columns are, position by position,
/// the values read through each column.
proof fn lemma_values_are_reads<T: TryGetDynamicColumn>(target: T, s: Schema, g: Seq<DynColumn>)
    requires
        dyn_values(target, s, g) is Ok,
    ensures
        dyn_values(target, s, g)->Ok_0.len() == g.len(),
        forall|j: int|
            0 <= j < g.len() ==> target.dynamic_column_spec(s, #[trigger] g[j]) == Ok::<
                Option<Value>,
                DynamicColumnError,
            >(dyn_values(target, s, g)->Ok_0[j]),
    decreases g.len(),
{
    if g.len() > 0 {
        let rest = g.drop_first();
        lemma_values_are_reads(target, s, rest);
        let vs = dyn_values(target, s, g)->Ok_0;
        let rs = dyn_values(target, s, rest)->Ok_0;
        assert forall|j: int| 0 <= j < g.len() implies target.dynamic_column_spec(s, #[trigger] g[j]) == Ok::<
            Option<Value>,
            DynamicColumnError,
        >(vs[j]) by {
            if j > 0 {
                assert(g[j] == rest[j - 1]);
                assert(vs[j] == rs[j - 1]);
            }
        }
    }
}

/// For any records, each successful item of the simple match of the foreign
/// keys referencing `index` holds, at position `j`, what a dynamic read of
/// the host column paired with the `j`-th column of `index` gives, for one
/// foreign key of one of the records' tables that references exactly the
/// columns of `index`.
pub proof fn law_fk_match_values_are_reads<T: TryGetDynamicColumn>(
    target: T,
    s: Schema,
    tables: Seq<usize>,
    index: Seq<DynColumn>,
    i: int,
)
    requires
        tables_fk_matches(s, tables, index) is Ok,
        0 <= i < tables_fk_matches(s, tables, index)->Ok_0.len(),
        simple_items(target, s, tables_fk_matches(s, tables, index)->Ok_0)[i] is Ok,
    ensures
        exists|p: int, k: int|
            0 <= p < tables.len() && 0 <= k < s.tables@[tables[p] as int].foreign_keys@.len() && ({
                let f = #[trigger] s.tables@[tables[p] as int].foreign_keys@[k];
                let vs = simple_items(target, s, tables_fk_matches(s, tables, index)->Ok_0)[i]->Ok_0;
                &&& f.referenced_columns@.len() == index.len()
                &&& vs.len() == index.len()
                &&& forall|j: int|
                    0 <= j < index.len() ==> {
                        &&& (#[trigger] index[j]).table == f.referenced_table
                        &&& index[j].column == f.referenced_columns@[j]
                        &&& target.dynamic_column_spec(
                            s,
                            DynColumn { table: tables[p], column: f.host_columns@[j], kind: index[j].kind },
                        ) == Ok::<Option<Value>, DynamicColumnError>(vs[j])
                    }
            }),
{
    let gs = tables_fk_matches(s, tables, index)->Ok_0;
    law_fk_groups_pair_with_index(s, tables, index, i);
    let (p, k) = choose|p: int, k: int|
        0 <= p < tables.len() && 0 <= k < s.tables@[tables[p] as int].foreign_keys@.len()
            && #[trigger] group_pairs_index(
            s,
            tables[p] as int,
            s.tables@[tables[p] as int].foreign_keys@[k],
            index,
            gs[i],
        );
    let f = s.tables@[tables[p] as int].foreign_keys@[k];
    let g = gs[i];
    assert(simple_items(target, s, gs)[i] == dyn_values(target, s, g));
    lemma_values_are_reads(target, s, g);
    let vs = dyn_values(target, s, g)->Ok_0;
    assert forall|j: int| 0 <= j < index.len() implies {
        &&& (#[trigger] index[j]).table == f.referenced_table
        &&& index[j].column == f.referenced_columns@[j]
        &&& target.dynamic_column_spec(
            s,
            DynColumn { table: tables[p], column: f.host_columns@[j], kind: index[j].kind },
        ) == Ok::<Option<Value>, DynamicColumnError>(vs[j])
    } by {
        assert(g[j] == DynColumn { table: tables[p], column: f.host_columns@[j], kind: index[j].kind });
    }
}

} // verus!

verus! {

/// Whether foreign key `f` references exactly the columns of `index`, in
/// order.
pub open spec fn references_index(f: ForeignKeyDef, index: Seq<DynColumn>) -> bool {
    &&& f.referenced_columns@.len() == index.len()
    &&& forall|j: int|
        0 <= j < index.len() ==> (#[trigger] index[j]).table == f.referenced_table && index[j].column
            == f.referenced_columns@[j]
}

/// The positions, among `fks`, of the keys the groups come from.
proof fn lemma_fks_selection(s: Schema, t: int, fks: Seq<ForeignKeyDef>, index: Seq<DynColumn>) -> (sel: Seq<int>)
    requires
        0 <= t <= usize::MAX,
        fks_matches(s, t, fks, index) is Ok,
    ensures
        sel.len() == fks_matches(s, t, fks, index)->Ok_0.len(),
        forall|a: int, b: int| 0 <= a < b < sel.len() ==> sel[a] < sel[b],
        forall|i: int|
            #![trigger sel[i]]
            0 <= i < sel.len() ==> 0 <= sel[i] < fks.len() && group_pairs_index(
                s,
                t,
                fks[sel[i]],
                index,
                fks_matches(s, t, fks, index)->Ok_0[i],
            ),
        forall|k: int|
            #![trigger fks[k]]
            0 <= k < fks.len() && references_index(fks[k], index) ==> exists|i: int| 0 <= i < sel.len() && sel[i] == k,
    decreases fks.len(),
{
    if fks.len() == 0 {
        Seq::empty()
    } else {
        let pre = fks.drop_last();
        let sel0 = lemma_fks_selection(s, t, pre, index);
        let g = fks_matches(s, t, pre, index)->Ok_0;
        let gs = fks_matches(s, t, fks, index)->Ok_0;
        let n = fks.len() - 1;
        assert(fks[n] == fks.last());
        assert forall|k: int| 0 <= k < pre.len() implies #[trigger] pre[k] == fks[k] by {}
        match fk_outcome(s, t, fks.last(), index) {
            None => {
                assert(gs == g);
                assert forall|k: int|
                    #![trigger fks[k]]
                    0 <= k < fks.len() && references_index(fks[k], index) implies exists|i: int|
                    0 <= i < sel0.len() && sel0[i] == k by {
                    if k == n {
                        assert(crate::foreign_keys::fk_references(fks.last(), index));
                    } else {
                        assert(pre[k] == fks[k]);
                    }
                }
                assert forall|i: int| #![trigger sel0[i]] 0 <= i < sel0.len() implies 0 <= sel0[i] < fks.len()
                    && group_pairs_index(s, t, fks[sel0[i]], index, gs[i]) by {
                    assert(pre[sel0[i]] == fks[sel0[i]]);
                }
                sel0
            },
            Some(Ok(h)) => {
                lemma_outcome_pairs(s, t, fks.last(), index);
                let sel = sel0.push(n);
                assert(gs == g.push(h));
                assert forall|i: int| #![trigger sel[i]] 0 <= i < sel.len() implies 0 <= sel[i] < fks.len()
                    && group_pairs_index(s, t, fks[sel[i]], index, gs[i]) by {
                    if i < sel0.len() {
                        assert(sel[i] == sel0[i]);
                        assert(pre[sel0[i]] == fks[sel0[i]]);
                        assert(gs[i] == g[i]);
                    } else {
                        assert(sel[i] == n);
                        assert(gs[i] == h);
                    }
                }
                assert forall|a: int, b: int| 0 <= a < b < sel.len() implies sel[a] < sel[b] by {
                    if b == sel0.len() {
                        assert(sel[a] == sel0[a]);
                        assert(0 <= sel0[a] < pre.len());
                    } else {
                        assert(sel[a] == sel0[a] && sel[b] == sel0[b]);
                    }
                }
                assert forall|k: int|
                    #![trigger fks[k]]
                    0 <= k < fks.len() && references_index(fks[k], index) implies exists|i: int|
                    0 <= i < sel.len() && sel[i] == k by {
                    if k == n {
                        assert(sel[sel0.len() as int] == k);
                    } else {
                        assert(pre[k] == fks[k]);
                        let i0 = choose|i: int| 0 <= i < sel0.len() && sel0[i] == k;
                        assert(sel[i0] == k);
                    }
                }
                sel
            },
            Some(Err(_)) => {
                assert(false);
                Seq::empty()
            },
        }
    }
}

/// Whether `sel` gives, for each group of `gs`, the position among `fks`
/// of the key it comes from: positions increase, each group pairs its key
/// with `index`, and every key that references exactly the columns of
/// `index` has a group.
pub open spec fn groups_follow_keys(
    s: Schema,
    t: int,
    fks: Seq<ForeignKeyDef>,
    index: Seq<DynColumn>,
    gs: Seq<Seq<DynColumn>>,
    sel: Seq<int>,
) -> bool {
    &&& sel.len() == gs.len()
    &&& forall|a: int, b: int| 0 <= a < b < sel.len() ==> sel[a] < sel[b]
    &&& forall|i: int|
        #![trigger sel[i]]
        0 <= i < sel.len() ==> 0 <= sel[i] < fks.len() && group_pairs_index(s, t, fks[sel[i]], index, gs[i])
    &&& forall|k: int|
        #![trigger fks[k]]
        0 <= k < fks.len() && references_index(fks[k], index) ==> exists|i: int| 0 <= i < sel.len() && sel[i] == k
}

/// The groups listed for the foreign keys `fks` of table `t` that
/// reference `index` come one for each foreign key that references exactly
/// the columns of `index`, in the order of the keys, each pairing that key
/// with `index`.
pub proof fn law_fk_groups_one_per_referencing_key(s: Schema, t: int, fks: Seq<ForeignKeyDef>, index: Seq<DynColumn>)
    requires
        0 <= t <= usize::MAX,
        fks_matches(s, t, fks, index) is Ok,
    ensures
        exists|sel: Seq<int>| #[trigger] groups_follow_keys(s, t, fks, index, fks_matches(s, t, fks, index)->Ok_0, sel),
{
    let sel = lemma_fks_selection(s, t, fks, index);
    assert(groups_follow_keys(s, t, fks, index, fks_matches(s, t, fks, index)->Ok_0, sel));
}

} // verus!

verus! {

/// Whether `j` is the first column of `index` read with another kind than
/// the column of foreign key `f` it references.
pub open spec fn first_wrong_kind(s: Schema, f: ForeignKeyDef, index: Seq<DynColumn>, j: int) -> bool {
    &&& 0 <= j < index.len()
    &&& index[j].kind != s.column(f.referenced_table as int, f.referenced_columns@[j] as int).kind
    &&& forall|q: int|
        0 <= q < j ==> (#[trigger] index[q]).kind == s.column(f.referenced_table as int, f.referenced_columns@[q] as int).kind
}

/// When listing the foreign keys `fks` of table `t` that reference `index`
/// is refused, one of them references exactly the columns of `index`, and
/// the refusal names the first column of `index` read with another kind
/// than the column it references.
pub proof fn law_fk_refusal_names_wrong_kind(s: Schema, t: int, fks: Seq<ForeignKeyDef>, index: Seq<DynColumn>)
    requires
        fks_matches(s, t, fks, index) is Err,
    ensures
        exists|k: int, j: int|
            0 <= k < fks.len() && references_index(fks[k], index) && #[trigger] first_wrong_kind(s, fks[k], index, j)
                && fks_matches(s, t, fks, index)->Err_0 == crate::dynamic_columns::unknown_column(s, index[j]),
    decreases fks.len(),
{
    let pre = fks.drop_last();
    let n = fks.len() - 1;
    assert(fks[n] == fks.last());
    if fks_matches(s, t, pre, index) is Err {
        law_fk_refusal_names_wrong_kind(s, t, pre, index);
        let (k, j) = choose|k: int, j: int|
            0 <= k < pre.len() && references_index(pre[k], index) && #[trigger] first_wrong_kind(s, pre[k], index, j)
                && fks_matches(s, t, pre, index)->Err_0 == crate::dynamic_columns::unknown_column(s, index[j]);
        assert(pre[k] == fks[k]);
        assert(first_wrong_kind(s, fks[k], index, j));
    } else {
        let f = fks.last();
        assert(fk_outcome(s, t, f, index) matches Some(Err(_)));
        let j = choose|j: int| kind_mismatch_at(s, f, index, j);
        assert(first_wrong_kind(s, fks[n], index, j));
        assert(references_index(fks[n], index));
    }
}

} // verus!

verus! {

/// When the foreign keys of `tables` that reference `index` are listed,
/// every foreign key of one of these tables that references exactly the
/// columns of `index` has a group, which pairs it with `index`.
pub proof fn law_fk_groups_cover_tables(s: Schema, tables: Seq<usize>, index: Seq<DynColumn>, p: int, k: int)
    requires
        tables_fk_matches(s, tables, index) is Ok,
        0 <= p < tables.len(),
        0 <= k < s.tables@[tables[p] as int].foreign_keys@.len(),
        references_index(s.tables@[tables[p] as int].foreign_keys@[k], index),
    ensures
        exists|i: int|
            0 <= i < tables_fk_matches(s, tables, index)->Ok_0.len() && #[trigger] group_pairs_index(
                s,
                tables[p] as int,
                s.tables@[tables[p] as int].foreign_keys@[k],
                index,
                tables_fk_matches(s, tables, index)->Ok_0[i],
            ),
    decreases tables.len(),
{
    let pre = tables.drop_last();
    let g = tables_fk_matches(s, pre, index)->Ok_0;
    let gs = tables_fk_matches(s, tables, index)->Ok_0;
    let f = s.tables@[tables[p] as int].foreign_keys@[k];
    if p < tables.len() - 1 {
        assert(pre[p] == tables[p]);
        law_fk_groups_cover_tables(s, pre, index, p, k);
        let i = choose|i: int|
            0 <= i < g.len() && #[trigger] group_pairs_index(s, pre[p] as int, f, index, g[i]);
        assert(gs[i] == g[i]);
        assert(group_pairs_index(s, tables[p] as int, f, index, gs[i]));
    } else {
        let last = tables.last() as int;
        assert(tables[p] == tables.last());
        let fks = s.tables@[last].foreign_keys@;
        let h = fks_matches(s, last, fks, index)->Ok_0;
        let sel = lemma_fks_selection(s, last, fks, index);
        assert(fks[k] == f);
        let i0 = choose|i: int| 0 <= i < sel.len() && sel[i] == k;
        assert(group_pairs_index(s, last, fks[sel[i0]], index, h[i0]));
        assert(gs[g.len() + i0] == h[i0]);
        assert(group_pairs_index(s, tables[p] as int, f, index, gs[g.len() + i0]));
    }
}

} // verus!

verus! {

/// For a record and columns `cols` of table `t`, each item of the simple
/// match of the foreign keys of the record's table that reference `cols`
/// reads one such foreign key, which references table `t` and exactly the
/// columns `cols`, in order: its value at position `j` is the record's
/// value in the host column paired with `cols[j]`.
pub proof fn law_static_match_values_follow_columns(s: Schema, m: Model, t: usize, cols: Seq<usize>, i: int)
    requires
        s.wf(),
        model_wf(s, m@),
        forall|j: int| 0 <= j < cols.len() ==> s.has_column(t as int, #[trigger] cols[j] as int),
        0 <= i < crate::foreign_keys::static_groups(s, seq![m.table], t as int, cols).len(),
    ensures
        exists|k: int|
            0 <= k < s.tables@[m.table as int].foreign_keys@.len() && ({
                let f = #[trigger] s.tables@[m.table as int].foreign_keys@[k];
                &&& f.referenced_table == t
                &&& f.referenced_columns@ == cols
                &&& crate::foreign_keys::read_values(
                    simple_items(m, s, crate::foreign_keys::static_groups(s, seq![m.table], t as int, cols)),
                )[i] == Seq::new(cols.len(), |j: int| m.values@[f.host_columns@[j] as int])
            }),
{
    let index = crate::foreign_keys::static_index(s, t as int, cols);
    assert(index.len() == cols.len());
    assert forall|j: int| 0 <= j < index.len() implies (#[trigger] index[j]).wf(s) by {
        assert(index[j] == DynColumn::of_spec(s, t as int, cols[j] as int));
    }
    assert(crate::foreign_keys::index_kinds_ok(s, index)) by {
        assert forall|j: int| #![trigger index[j]] 0 <= j < index.len() implies index[j].kind == s.column(
            index[j].table as int,
            index[j].column as int,
        ).kind by {
            assert(index[j] == DynColumn::of_spec(s, t as int, cols[j] as int));
        }
    }
    crate::foreign_keys::lemma_tables_no_refusal(s, seq![m.table], index);
    law_fk_values_follow_index(s, m, index, i);
    let gs = tables_fk_matches(s, seq![m.table], index)->Ok_0;
    let k = choose|k: int|
        0 <= k < s.tables@[m.table as int].foreign_keys@.len() && ({
            let f = #[trigger] s.tables@[m.table as int].foreign_keys@[k];
            &&& f.referenced_columns@.len() == index.len()
            &&& forall|j: int|
                0 <= j < index.len() ==> (#[trigger] index[j]).table == f.referenced_table && index[j].column
                    == f.referenced_columns@[j]
            &&& simple_items(m, s, gs)[i] == Ok::<Seq<Option<Value>>, DynamicColumnError>(
                Seq::new(index.len(), |j: int| m.values@[f.host_columns@[j] as int]),
            )
        });
    let f = s.tables@[m.table as int].foreign_keys@[k];
    assert(s.table_wf(m.table as int));
    assert(s.foreign_key_wf(m.table as int, f));
    if cols.len() > 0 {
        assert(index[0] == DynColumn::of_spec(s, t as int, cols[0] as int));
        assert(f.referenced_table == t);
    } else {
        assert(f.referenced_columns@.len() > 0);
    }
    assert forall|j: int| 0 <= j < cols.len() implies f.referenced_columns@[j] == cols[j] by {
        assert(index[j] == DynColumn::of_spec(s, t as int, cols[j] as int));
        assert(index[j].column == f.referenced_columns@[j]);
    }
    assert(f.referenced_columns@ =~= cols);
    assert(crate::foreign_keys::read_values(simple_items(m, s, gs))[i] == simple_items(m, s, gs)[i]->Ok_0);
}

} // verus!
