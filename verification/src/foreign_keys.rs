//! The foreign keys of tables that reference one index of another table,
//! and the values they hold in records.
use vstd::prelude::*;
use crate::value::Value;
use crate::schema::{Schema, ForeignKeyDef};
use crate::model::{Model, model_wf};
use crate::builder_error::DynamicColumnError;
use crate::dynamic_columns::{
    DynColumn, TryGetDynamicColumn, TryGetDynamicColumns, unknown_column, unknown_column_error,
    dyn_values, values_outcome, dyn_matches, chain_dyn_value, models_view,
};
use crate::columns::{columns_wf, dyn_columns_of, HasNestedDynColumns};

verus! {

/// Whether foreign key `f` references the columns of `index`: the same
/// table and the same columns, in order.
pub open spec fn fk_references(f: ForeignKeyDef, index: Seq<DynColumn>) -> bool {
    &&& f.referenced_columns@.len() == index.len()
    &&& forall|j: int|
        #![trigger index[j]]
        0 <= j < index.len() ==> index[j].table == f.referenced_table && index[j].column
            == f.referenced_columns@[j]
}

/// Whether `j` is the first column of `index` read with another kind than
/// the one of the column of foreign key `f` it stands for.
pub open spec fn kind_mismatch_at(s: Schema, f: ForeignKeyDef, index: Seq<DynColumn>, j: int) -> bool {
    &&& 0 <= j < index.len()
    &&& index[j].kind != s.column(f.referenced_table as int, f.referenced_columns@[j] as int).kind
    &&& forall|k: int|
        #![trigger index[k]]
        0 <= k < j ==> index[k].kind == s.column(f.referenced_table as int, f.referenced_columns@[k] as int).kind
}

/// The host columns of foreign key `f` of table `t`, as dynamic columns
/// read with the kinds of `index`.
pub open spec fn host_dyn_columns(t: int, f: ForeignKeyDef, index: Seq<DynColumn>) -> Seq<DynColumn> {
    Seq::new(
        index.len(),
        |j: int| DynColumn { table: t as usize, column: f.host_columns@[j], kind: index[j].kind },
    )
}

/// What foreign key `f` of table `t` contributes for `index`: nothing when
/// it references other columns, the refusal of the first column read with
/// another kind, or its host columns.
pub open spec fn fk_outcome(s: Schema, t: int, f: ForeignKeyDef, index: Seq<DynColumn>) -> Option<
    Result<Seq<DynColumn>, DynamicColumnError>,
> {
    if !fk_references(f, index) {
        None
    } else if exists|j: int| kind_mismatch_at(s, f, index, j) {
        let j = choose|j: int| kind_mismatch_at(s, f, index, j);
        Some(Err(unknown_column(s, index[j])))
    } else {
        Some(Ok(host_dyn_columns(t, f, index)))
    }
}

/// The host columns of the foreign keys `fks` of table `t` that reference
/// `index`, in order, or the first refusal.
pub open spec fn fks_matches(s: Schema, t: int, fks: Seq<ForeignKeyDef>, index: Seq<DynColumn>) -> Result<
    Seq<Seq<DynColumn>>,
    DynamicColumnError,
>
    decreases fks.len(),
{
    if fks.len() == 0 {
        Ok(Seq::empty())
    } else {
        match fks_matches(s, t, fks.drop_last(), index) {
            Err(e) => Err(e),
            Ok(g) => match fk_outcome(s, t, fks.last(), index) {
                None => Ok(g),
                Some(Err(e)) => Err(e),
                Some(Ok(h)) => Ok(g.push(h)),
            },
        }
    }
}

/// The host columns of the foreign keys of tables `tables` that reference
/// `index`, table after table, or the first refusal.
pub open spec fn tables_fk_matches(s: Schema, tables: Seq<usize>, index: Seq<DynColumn>) -> Result<
    Seq<Seq<DynColumn>>,
    DynamicColumnError,
>
    decreases tables.len(),
{
    if tables.len() == 0 {
        Ok(Seq::empty())
    } else {
        match tables_fk_matches(s, tables.drop_last(), index) {
            Err(e) => Err(e),
            Ok(g) => match fks_matches(
                s,
                tables.last() as int,
                s.tables@[tables.last() as int].foreign_keys@,
                index,
            ) {
                Err(e) => Err(e),
                Ok(h) => Ok(g + h),
            },
        }
    }
}

/// The abstract value of an outcome listing groups of dynamic columns.
pub open spec fn groups_outcome(r: Result<Vec<Vec<DynColumn>>, DynamicColumnError>) -> Result<
    Seq<Seq<DynColumn>>,
    DynamicColumnError,
> {
    match r {
        Ok(g) => Ok(g@.map_values(|v: Vec<DynColumn>| v@)),
        Err(e) => Err(e),
    }
}

/// Whether every column of `index` names a column of the schema.
pub open spec fn index_wf(s: Schema, index: Seq<DynColumn>) -> bool {
    forall|j: int| 0 <= j < index.len() ==> (#[trigger] index[j]).wf(s)
}

/// Whether every column of groups `gs` names a column of one of `tables`
/// and is read with the kind of that column's values.
pub open spec fn host_groups_ok(s: Schema, tables: Seq<usize>, gs: Seq<Seq<DynColumn>>) -> bool {
    forall|i: int, j: int|
        0 <= i < gs.len() && 0 <= j < gs[i].len() ==> host_entry_ok(s, tables, #[trigger] gs[i][j])
}

/// Whether dynamic column `dc` names a column of one of `tables` and is
/// read with the kind of that column's values.
pub open spec fn host_entry_ok(s: Schema, tables: Seq<usize>, dc: DynColumn) -> bool {
    &&& dc.wf(s)
    &&& tables.contains(dc.table)
    &&& dc.kind == s.column(dc.table as int, dc.column as int).kind
}

/// The abstract values of groups of dynamic columns.
pub open spec fn groups_view(g: Seq<Vec<DynColumn>>) -> Seq<Seq<DynColumn>> {
    g.map_values(|v: Vec<DynColumn>| v@)
}

/// Returns what foreign key `f` of table `t` contributes for `index`.
fn fk_outcome_of(schema: &Schema, t: usize, f: &ForeignKeyDef, index: &Vec<DynColumn>) -> (r: Option<
    Result<Vec<DynColumn>, DynamicColumnError>,
>)
    requires
        schema.foreign_key_wf(t as int, *f),
        schema.has_table(t as int),
        index_wf(*schema, index@),
    ensures
        match (r, fk_outcome(*schema, t as int, *f, index@)) {
            (None, None) => true,
            (Some(Err(e1)), Some(Err(e2))) => e1 == e2,
            (Some(Ok(h1)), Some(Ok(h2))) => h1@ == h2,
            _ => false,
        },
        r matches Some(Ok(h)) ==> forall|j: int|
            #![trigger h@[j]]
            0 <= j < h@.len() ==> h@[j].wf(*schema) && h@[j].table == t && h@[j].kind == schema.column(
                t as int,
                h@[j].column as int,
            ).kind,
{
    if f.referenced_columns.len() != index.len() {
        return None;
    }
    let mut j: usize = 0;
    while j < index.len()
        invariant
            j <= index@.len(),
            f.referenced_columns@.len() == index@.len(),
            forall|k: int|
                #![trigger index@[k]]
                0 <= k < j ==> index@[k].table == f.referenced_table && index@[k].column
                    == f.referenced_columns@[k],
        decreases index.len() - j,
    {
        if index[j].table != f.referenced_table || index[j].column != f.referenced_columns[j] {
            return None;
        }
        j += 1;
    }
    assert(fk_references(*f, index@));
    let mut j: usize = 0;
    while j < index.len()
        invariant
            j <= index@.len(),
            f.referenced_columns@.len() == index@.len(),
            fk_references(*f, index@),
            schema.foreign_key_wf(t as int, *f),
            index_wf(*schema, index@),
            forall|k: int|
                #![trigger index@[k]]
                0 <= k < j ==> index@[k].kind == schema.column(
                    f.referenced_table as int,
                    f.referenced_columns@[k] as int,
                ).kind,
        decreases index.len() - j,
    {
        assert(index@[j as int].wf(*schema));
        if index[j].kind != schema.tables[f.referenced_table].columns[f.referenced_columns[j]].kind {
            assert(kind_mismatch_at(*schema, *f, index@, j as int));
            let ghost q = choose|q: int| kind_mismatch_at(*schema, *f, index@, q);
            assert(q == j as int) by {
                if q < j as int {
                    assert(index@[q].kind == schema.column(f.referenced_table as int, f.referenced_columns@[q] as int).kind);
                } else if q > j as int {
                    assert(index@[j as int].kind == schema.column(
                        f.referenced_table as int,
                        f.referenced_columns@[j as int] as int,
                    ).kind);
                }
            }
            return Some(Err(unknown_column_error(schema, index[j])));
        }
        j += 1;
    }
    assert(!exists|q: int| kind_mismatch_at(*schema, *f, index@, q));
    let mut host: Vec<DynColumn> = Vec::new();
    let mut j: usize = 0;
    while j < index.len()
        invariant
            j <= index@.len(),
            f.host_columns@.len() == f.referenced_columns@.len(),
            f.referenced_columns@.len() == index@.len(),
            host@ == host_dyn_columns(t as int, *f, index@).take(j as int),
        decreases index.len() - j,
    {
        host.push(DynColumn { table: t, column: f.host_columns[j], kind: index[j].kind });
        assert(host_dyn_columns(t as int, *f, index@).take(j + 1) =~= host_dyn_columns(t as int, *f, index@).take(
            j as int,
        ).push(DynColumn { table: t, column: f.host_columns@[j as int], kind: index@[j as int].kind }));
        j += 1;
    }
    assert(host_dyn_columns(t as int, *f, index@).take(index@.len() as int) =~= host_dyn_columns(
        t as int,
        *f,
        index@,
    ));
    assert forall|j: int| 0 <= j < host@.len() implies #[trigger] host@[j].wf(*schema) && host@[j].table == t
        && host@[j].kind == schema.column(t as int, host@[j].column as int).kind by {
        assert(index@[j].kind == schema.column(f.referenced_table as int, f.referenced_columns@[j] as int).kind);
        assert(schema.has_column(t as int, f.host_columns@[j] as int));
    }
    Some(Ok(host))
}

/// Returns the host columns of the foreign keys of table `t` that reference
/// `index`, in order, or the first refusal.
pub fn table_fk_matches(schema: &Schema, t: usize, index: &Vec<DynColumn>) -> (r: Result<
    Vec<Vec<DynColumn>>,
    DynamicColumnError,
>)
    requires
        schema.wf(),
        schema.has_table(t as int),
        index_wf(*schema, index@),
    ensures
        groups_outcome(r) == fks_matches(*schema, t as int, schema.tables@[t as int].foreign_keys@, index@),
        r matches Ok(g) ==> host_groups_ok(*schema, seq![t], g@.map_values(|v: Vec<DynColumn>| v@)),
{
    let fks = &schema.tables[t].foreign_keys;
    assert(schema.table_wf(t as int));
    let mut out: Vec<Vec<DynColumn>> = Vec::new();
    let mut i: usize = 0;
    assert(fks@.take(0).len() == 0);
    assert(out@.map_values(|v: Vec<DynColumn>| v@) =~= Seq::<Seq<DynColumn>>::empty());
    while i < fks.len()
        invariant
            i <= fks@.len(),
            fks@ == schema.tables@[t as int].foreign_keys@,
            schema.wf(),
            schema.has_table(t as int),
            schema.table_wf(t as int),
            index_wf(*schema, index@),
            fks_matches(*schema, t as int, fks@.take(i as int), index@) == Ok::<
                Seq<Seq<DynColumn>>,
                DynamicColumnError,
            >(out@.map_values(|v: Vec<DynColumn>| v@)),
            host_groups_ok(*schema, seq![t], out@.map_values(|v: Vec<DynColumn>| v@)),
        decreases fks.len() - i,
    {
        assert(schema.foreign_key_wf(t as int, fks@[i as int]));
        let ghost pre = fks@.take(i as int);
        assert(fks@.take(i + 1).drop_last() =~= pre);
        assert(fks@.take(i + 1).last() == fks@[i as int]);
        match fk_outcome_of(schema, t, &fks[i], index) {
            None => {},
            Some(Err(e)) => {
                proof {
                    let full = fks@;
                    lemma_fks_err_persists(*schema, t as int, full, index@, i as int + 1, e);
                }
                return Err(e);
            },
            Some(Ok(h)) => {
                let ghost before = out@;
                let ghost hv = h@;
                out.push(h);
                assert(out@.map_values(|v: Vec<DynColumn>| v@) =~= before.map_values(|v: Vec<DynColumn>| v@).push(
                    hv,
                ));
                assert(seq![t].contains(t)) by {
                    assert(seq![t][0] == t);
                }
                assert forall|a: int, b: int|
                    0 <= a < out@.len() && 0 <= b < groups_view(out@)[a].len() implies host_entry_ok(
                    *schema,
                    seq![t],
                    #[trigger] groups_view(out@)[a][b],
                ) by {
                    let gs = groups_view(out@);
                    if a < before.len() {
                        assert(gs[a] == before.map_values(|v: Vec<DynColumn>| v@)[a]);
                    } else {
                        assert(gs[a] == hv);
                        assert(hv[b].table == t);
                    }
                }
            },
        }
        i += 1;
    }
    assert(fks@.take(fks@.len() as int) =~= fks@);
    Ok(out)
}

/// Once a prefix of the foreign keys is refused, the whole list is refused
/// with the same error.
proof fn lemma_fks_err_persists(
    s: Schema,
    t: int,
    fks: Seq<ForeignKeyDef>,
    index: Seq<DynColumn>,
    n: int,
    e: DynamicColumnError,
)
    requires
        0 <= n <= fks.len(),
        fks_matches(s, t, fks.take(n), index) == Err::<Seq<Seq<DynColumn>>, DynamicColumnError>(e),
    ensures
        fks_matches(s, t, fks, index) == Err::<Seq<Seq<DynColumn>>, DynamicColumnError>(e),
    decreases fks.len() - n,
{
    if n < fks.len() {
        assert(fks.take(n + 1).drop_last() =~= fks.take(n));
        lemma_fks_err_persists(s, t, fks, index, n + 1, e);
    } else {
        assert(fks.take(n) =~= fks);
    }
}

/// Once a prefix of the tables is refused, the whole list is refused with
/// the same error.
proof fn lemma_tables_err_persists(
    s: Schema,
    tables: Seq<usize>,
    index: Seq<DynColumn>,
    n: int,
    e: DynamicColumnError,
)
    requires
        0 <= n <= tables.len(),
        tables_fk_matches(s, tables.take(n), index) == Err::<Seq<Seq<DynColumn>>, DynamicColumnError>(e),
    ensures
        tables_fk_matches(s, tables, index) == Err::<Seq<Seq<DynColumn>>, DynamicColumnError>(e),
    decreases tables.len() - n,
{
    if n < tables.len() {
        assert(tables.take(n + 1).drop_last() =~= tables.take(n));
        lemma_tables_err_persists(s, tables, index, n + 1, e);
    } else {
        assert(tables.take(n) =~= tables);
    }
}

/// Returns the host columns of the foreign keys of tables `tables` that
/// reference `index`, table after table, or the first refusal.
pub fn tables_foreign_key_matches(schema: &Schema, tables: &Vec<usize>, index: &Vec<DynColumn>) -> (r: Result<
    Vec<Vec<DynColumn>>,
    DynamicColumnError,
>)
    requires
        schema.wf(),
        forall|i: int| 0 <= i < tables@.len() ==> schema.has_table(#[trigger] tables@[i] as int),
        index_wf(*schema, index@),
    ensures
        groups_outcome(r) == tables_fk_matches(*schema, tables@, index@),
        r matches Ok(g) ==> host_groups_ok(*schema, tables@, g@.map_values(|v: Vec<DynColumn>| v@)),
{
    let mut out: Vec<Vec<DynColumn>> = Vec::new();
    let mut i: usize = 0;
    assert(tables@.take(0).len() == 0);
    assert(out@.map_values(|v: Vec<DynColumn>| v@) =~= Seq::<Seq<DynColumn>>::empty());
    while i < tables.len()
        invariant
            i <= tables@.len(),
            schema.wf(),
            forall|i: int| 0 <= i < tables@.len() ==> schema.has_table(#[trigger] tables@[i] as int),
            index_wf(*schema, index@),
            tables_fk_matches(*schema, tables@.take(i as int), index@) == Ok::<
                Seq<Seq<DynColumn>>,
                DynamicColumnError,
            >(out@.map_values(|v: Vec<DynColumn>| v@)),
            host_groups_ok(*schema, tables@, out@.map_values(|v: Vec<DynColumn>| v@)),
        decreases tables.len() - i,
    {
        assert(tables@.take(i + 1).drop_last() =~= tables@.take(i as int));
        assert(tables@.take(i + 1).last() == tables@[i as int]);
        assert(schema.has_table(tables@[i as int] as int));
        match table_fk_matches(schema, tables[i], index) {
            Err(e) => {
                proof {
                    lemma_tables_err_persists(*schema, tables@, index@, i as int + 1, e);
                }
                return Err(e);
            },
            Ok(mut h) => {
                let ghost before = out@;
                let ghost hv = h@;
                out.append(&mut h);
                assert(out@.map_values(|v: Vec<DynColumn>| v@) =~= before.map_values(|v: Vec<DynColumn>| v@)
                    + hv.map_values(|v: Vec<DynColumn>| v@));
                let ghost ti = tables@[i as int];
                assert(tables@.contains(ti));
                assert forall|a: int, b: int|
                    0 <= a < out@.len() && 0 <= b < groups_view(out@)[a].len() implies host_entry_ok(
                    *schema,
                    tables@,
                    #[trigger] groups_view(out@)[a][b],
                ) by {
                    let gs = groups_view(out@);
                    let hs = hv.map_values(|v: Vec<DynColumn>| v@);
                    if a < before.len() {
                        assert(gs[a] == before.map_values(|v: Vec<DynColumn>| v@)[a]);
                    } else {
                        assert(gs[a] == hs[a - before.len()]);
                        assert(hs[a - before.len()][b] == gs[a][b]);
                        assert(seq![ti].contains(gs[a][b].table));
                        assert(gs[a][b].table == ti) by {
                            let w = choose|w: int| 0 <= w < seq![ti].len() && seq![ti][w] == gs[a][b].table;
                            assert(w == 0);
                        }
                    }
                }
            },
        }
        i += 1;
    }
    assert(tables@.take(tables@.len() as int) =~= tables@);
    Ok(out)
}

/// For each group of dynamic columns, its values in `target`, or the
/// refusal of its first column that cannot be read.
pub open spec fn simple_items<T: TryGetDynamicColumn>(target: T, s: Schema, groups: Seq<Seq<DynColumn>>) -> Seq<
    Result<Seq<Option<Value>>, DynamicColumnError>,
> {
    groups.map_values(|g: Seq<DynColumn>| dyn_values(target, s, g))
}

/// Whether no value is `NULL`.
pub open spec fn all_set(vs: Seq<Option<Value>>) -> bool {
    forall|j: int| 0 <= j < vs.len() ==> (#[trigger] vs[j]) is Some
}

/// The values without their `Option`.
pub open spec fn set_values(vs: Seq<Option<Value>>) -> Seq<Value> {
    vs.map_values(|o: Option<Value>| o->Some_0)
}

/// The items of a match whose values are all set, without their `Option`,
/// and the refusals, in order; items holding a `NULL` are dropped.
pub open spec fn full_items(items: Seq<Result<Seq<Option<Value>>, DynamicColumnError>>) -> Seq<
    Result<Seq<Value>, DynamicColumnError>,
>
    decreases items.len(),
{
    if items.len() == 0 {
        Seq::empty()
    } else {
        let rest = full_items(items.drop_last());
        match items.last() {
            Err(e) => rest.push(Err(e)),
            Ok(vs) => if all_set(vs) {
                rest.push(Ok(set_values(vs)))
            } else {
                rest
            },
        }
    }
}

/// The abstract values of the items of a simple match.
pub open spec fn simple_view(items: Seq<Result<Vec<Option<Value>>, DynamicColumnError>>) -> Seq<
    Result<Seq<Option<Value>>, DynamicColumnError>,
> {
    items.map_values(|r: Result<Vec<Option<Value>>, DynamicColumnError>| values_outcome(r))
}

/// The abstract value of an item of a full match.
pub open spec fn full_outcome(r: Result<Vec<Value>, DynamicColumnError>) -> Result<Seq<Value>, DynamicColumnError> {
    match r {
        Ok(v) => Ok(v@),
        Err(e) => Err(e),
    }
}

/// The abstract values of the items of a full match.
pub open spec fn full_view(items: Seq<Result<Vec<Value>, DynamicColumnError>>) -> Seq<
    Result<Seq<Value>, DynamicColumnError>,
> {
    items.map_values(|r: Result<Vec<Value>, DynamicColumnError>| full_outcome(r))
}

/// Returns the values without their `Option`, or none if one is `NULL`.
fn all_values_set(vs: &Vec<Option<Value>>) -> (r: Option<Vec<Value>>)
    ensures
        match r {
            Some(v) => all_set(vs@) && v@ == set_values(vs@),
            None => !all_set(vs@),
        },
{
    let mut out: Vec<Value> = Vec::new();
    let mut j: usize = 0;
    while j < vs.len()
        invariant
            j <= vs@.len(),
            all_set(vs@.take(j as int)),
            out@ == set_values(vs@.take(j as int)),
        decreases vs.len() - j,
    {
        match vs[j] {
            Some(v) => {
                out.push(v);
                assert(set_values(vs@.take(j + 1)) =~= set_values(vs@.take(j as int)).push(v));
                assert forall|k: int| 0 <= k < j + 1 implies (#[trigger] vs@.take(j + 1)[k]) is Some by {
                    if k < j {
                        assert(vs@.take(j + 1)[k] == vs@.take(j as int)[k]);
                    }
                }
            },
            None => {
                assert(vs@[j as int] is None);
                return None;
            },
        }
        j += 1;
    }
    assert(vs@.take(vs@.len() as int) =~= vs@);
    Some(out)
}

/// Records whose tables have foreign keys referencing an index given by
/// dynamic columns.
pub trait IterDynForeignKeys: TryGetDynamicColumns {
    /// The tables of the records, in order.
    spec fn key_tables(&self) -> Seq<usize>;

    /// A column of one of the records' tables, read with the kind of its
    /// values, can be read from the records.
    proof fn lemma_host_column_readable(&self, s: Schema, dc: DynColumn)
        requires
            self.dynamic_target_wf(s),
            host_entry_ok(s, self.key_tables(), dc),
        ensures
            self.dynamic_column_spec(s, dc) is Ok,
    ;

    /// Returns the host columns of the foreign keys of the records' tables
    /// that reference `index`, table after table, each read with the kinds
    /// of `index`; or the refusal of the first index column read with
    /// another kind than the one of the column it stands for.
    fn iter_foreign_key_dyn_columns(&self, schema: &Schema, index: &Vec<DynColumn>) -> (r: Result<
        Vec<Vec<DynColumn>>,
        DynamicColumnError,
    >)
        requires
            schema.wf(),
            self.dynamic_target_wf(*schema),
            index_wf(*schema, index@),
        ensures
            groups_outcome(r) == tables_fk_matches(*schema, self.key_tables(), index@),
            r matches Ok(g) ==> host_groups_ok(*schema, self.key_tables(), groups_view(g@)),
    ;

    /// Returns, for each foreign key referencing `index`, the values of its
    /// host columns in the records, `NULL` included, or the refusal of its
    /// first column that cannot be read.
    fn iter_dyn_match_simple(&self, schema: &Schema, index: &Vec<DynColumn>) -> (r: Result<
        Vec<Result<Vec<Option<Value>>, DynamicColumnError>>,
        DynamicColumnError,
    >)
        requires
            schema.wf(),
            self.dynamic_target_wf(*schema),
            index_wf(*schema, index@),
        ensures
            match tables_fk_matches(*schema, self.key_tables(), index@) {
                Err(e) => r matches Err(e2) && e2 == e,
                Ok(groups) => r matches Ok(items) && simple_view(items@) == simple_items(*self, *schema, groups),
            },
    {
        match self.iter_foreign_key_dyn_columns(schema, index) {
            Err(e) => Err(e),
            Ok(groups) => {
                let ghost gv = groups_view(groups@);
                let mut items: Vec<Result<Vec<Option<Value>>, DynamicColumnError>> = Vec::new();
                let mut i: usize = 0;
                while i < groups.len()
                    invariant
                        i <= groups@.len(),
                        gv == groups_view(groups@),
                        host_groups_ok(*schema, self.key_tables(), gv),
                        self.dynamic_target_wf(*schema),
                        simple_view(items@) == simple_items(*self, *schema, gv.take(i as int)),
                    decreases groups.len() - i,
                {
                    assert forall|j: int| 0 <= j < groups@[i as int]@.len() implies (#[trigger] groups@[i as int]@[j]).wf(
                        *schema,
                    ) by {
                        assert(gv[i as int] == groups@[i as int]@);
                        assert(host_entry_ok(*schema, self.key_tables(), gv[i as int][j]));
                    }
                    let item = self.try_get_dynamic_columns(schema, &groups[i]);
                    let ghost before = items@;
                    items.push(item);
                    assert(simple_view(items@) =~= simple_view(before).push(values_outcome(item)));
                    assert(simple_items(*self, *schema, gv.take(i + 1)) =~= simple_items(
                        *self,
                        *schema,
                        gv.take(i as int),
                    ).push(dyn_values(*self, *schema, gv[i as int])));
                    i += 1;
                }
                assert(gv.take(gv.len() as int) =~= gv);
                Ok(items)
            },
        }
    }

    /// Returns, for each foreign key referencing `index` whose host columns
    /// hold no `NULL` in the records, their values; and the refusals, in
    /// order.
    fn iter_dyn_match_full(&self, schema: &Schema, index: &Vec<DynColumn>) -> (r: Result<
        Vec<Result<Vec<Value>, DynamicColumnError>>,
        DynamicColumnError,
    >)
        requires
            schema.wf(),
            self.dynamic_target_wf(*schema),
            index_wf(*schema, index@),
        ensures
            match tables_fk_matches(*schema, self.key_tables(), index@) {
                Err(e) => r matches Err(e2) && e2 == e,
                Ok(groups) => r matches Ok(items) && full_view(items@) == full_items(
                    simple_items(*self, *schema, groups),
                ),
            },
    {
        match self.iter_dyn_match_simple(schema, index) {
            Err(e) => Err(e),
            Ok(simple) => {
                let ghost sv = simple_view(simple@);
                let mut items: Vec<Result<Vec<Value>, DynamicColumnError>> = Vec::new();
                let mut i: usize = 0;
                while i < simple.len()
                    invariant
                        i <= simple@.len(),
                        sv == simple_view(simple@),
                        full_view(items@) == full_items(sv.take(i as int)),
                    decreases simple.len() - i,
                {
                    assert(sv.take(i + 1).drop_last() =~= sv.take(i as int));
                    assert(sv.take(i + 1).last() == values_outcome(simple@[i as int]));
                    let ghost before = items@;
                    match &simple[i] {
                        Err(e) => {
                            items.push(Err(*e));
                            assert(full_view(items@) =~= full_view(before).push(
                                Err::<Seq<Value>, DynamicColumnError>(*e),
                            ));
                        },
                        Ok(vs) => {
                            match all_values_set(vs) {
                                Some(v) => {
                                    let ghost vv = v@;
                                    items.push(Ok(v));
                                    assert(full_view(items@) =~= full_view(before).push(
                                        Ok::<Seq<Value>, DynamicColumnError>(vv),
                                    ));
                                },
                                None => {},
                            }
                        },
                    }
                    i += 1;
                }
                assert(sv.take(sv.len() as int) =~= sv);
                Ok(items)
            },
        }
    }
}

impl IterDynForeignKeys for Model {
    open spec fn key_tables(&self) -> Seq<usize> {
        seq![self.table]
    }

    proof fn lemma_host_column_readable(&self, s: Schema, dc: DynColumn) {
        let w = choose|w: int| 0 <= w < seq![self.table].len() && seq![self.table][w] == dc.table;
        assert(w == 0);
    }

    fn iter_foreign_key_dyn_columns(&self, schema: &Schema, index: &Vec<DynColumn>) -> (r: Result<
        Vec<Vec<DynColumn>>,
        DynamicColumnError,
    >) {
        let tables = vec![self.table];
        assert(tables@ =~= seq![self.table]);
        tables_foreign_key_matches(schema, &tables, index)
    }
}

/// The tables of records.
pub open spec fn tables_of(ms: Seq<Model>) -> Seq<usize> {
    ms.map_values(|m: Model| m.table)
}

impl IterDynForeignKeys for Vec<Model> {
    open spec fn key_tables(&self) -> Seq<usize> {
        tables_of(self@)
    }

    proof fn lemma_host_column_readable(&self, s: Schema, dc: DynColumn) {
        let w = choose|w: int| 0 <= w < tables_of(self@).len() && tables_of(self@)[w] == dc.table;
        assert(dyn_matches(s, self@[w]@, dc));
        lemma_chain_finds(s, models_view(self@), dc, w);
    }

    fn iter_foreign_key_dyn_columns(&self, schema: &Schema, index: &Vec<DynColumn>) -> (r: Result<
        Vec<Vec<DynColumn>>,
        DynamicColumnError,
    >) {
        let mut tables: Vec<usize> = Vec::new();
        let mut i: usize = 0;
        while i < self.len()
            invariant
                i <= self@.len(),
                forall|k: int| 0 <= k < self@.len() ==> model_wf(*schema, (#[trigger] self@[k])@),
                tables@ == tables_of(self@.take(i as int)),
            decreases self.len() - i,
        {
            tables.push(self[i].table);
            assert(tables_of(self@.take(i + 1)) =~= tables_of(self@.take(i as int)).push(self@[i as int].table));
            i += 1;
        }
        assert(self@.take(self@.len() as int) =~= self@);
        assert forall|k: int| 0 <= k < tables@.len() implies schema.has_table(#[trigger] tables@[k] as int) by {
            assert(model_wf(*schema, self@[k]@));
        }
        tables_foreign_key_matches(schema, &tables, index)
    }
}

/// A dynamic column that some record of `ms` has is read from the first
/// such record.
pub proof fn lemma_chain_finds(s: Schema, ms: Seq<crate::model::ModelView>, dc: DynColumn, w: int)
    requires
        0 <= w < ms.len(),
        dyn_matches(s, ms[w], dc),
    ensures
        chain_dyn_value(s, ms, dc) is Ok,
    decreases ms.len(),
{
    if !dyn_matches(s, ms[0], dc) {
        assert(w > 0);
        assert(ms.drop_first()[w - 1] == ms[w]);
        lemma_chain_finds(s, ms.drop_first(), dc, w - 1);
    }
}

/// Columns that can all be read are read together.
pub proof fn lemma_dyn_values_ok<T: TryGetDynamicColumn>(target: T, s: Schema, g: Seq<DynColumn>)
    requires
        forall|j: int| 0 <= j < g.len() ==> (#[trigger] target.dynamic_column_spec(s, g[j])) is Ok,
    ensures
        dyn_values(target, s, g) is Ok,
        dyn_values(target, s, g)->Ok_0.len() == g.len(),
    decreases g.len(),
{
    if g.len() > 0 {
        assert forall|j: int| 0 <= j < g.drop_first().len() implies (#[trigger] target.dynamic_column_spec(
            s,
            g.drop_first()[j],
        )) is Ok by {
            assert(g.drop_first()[j] == g[j + 1]);
        }
        lemma_dyn_values_ok(target, s, g.drop_first());
        assert(target.dynamic_column_spec(s, g[0]) is Ok);
    }
}

/// Whether every column of `index` is read with the kind of its column's
/// values.
pub open spec fn index_kinds_ok(s: Schema, index: Seq<DynColumn>) -> bool {
    forall|j: int|
        #![trigger index[j]]
        0 <= j < index.len() ==> index[j].kind == s.column(index[j].table as int, index[j].column as int).kind
}

/// An index read with the kinds of its columns is never refused.
pub proof fn lemma_fks_no_refusal(s: Schema, t: int, fks: Seq<ForeignKeyDef>, index: Seq<DynColumn>)
    requires
        index_kinds_ok(s, index),
    ensures
        fks_matches(s, t, fks, index) is Ok,
    decreases fks.len(),
{
    if fks.len() > 0 {
        lemma_fks_no_refusal(s, t, fks.drop_last(), index);
        let f = fks.last();
        if fk_references(f, index) {
            assert forall|j: int| !kind_mismatch_at(s, f, index, j) by {
                if 0 <= j < index.len() {
                    assert(index[j].table == f.referenced_table && index[j].column == f.referenced_columns@[j]);
                }
            }
        }
    }
}

/// An index read with the kinds of its columns is never refused, whatever
/// the tables.
pub proof fn lemma_tables_no_refusal(s: Schema, tables: Seq<usize>, index: Seq<DynColumn>)
    requires
        index_kinds_ok(s, index),
    ensures
        tables_fk_matches(s, tables, index) is Ok,
    decreases tables.len(),
{
    if tables.len() > 0 {
        lemma_tables_no_refusal(s, tables.drop_last(), index);
        lemma_fks_no_refusal(s, tables.last() as int, s.tables@[tables.last() as int].foreign_keys@, index);
    }
}

/// The index made of columns `cols` of table `t`, each read with the kind of
/// its values.
pub open spec fn static_index(s: Schema, t: int, cols: Seq<usize>) -> Seq<DynColumn> {
    cols.map_values(|c: usize| DynColumn::of_spec(s, t, c as int))
}

/// The host columns of the foreign keys of `tables` referencing columns
/// `cols` of table `t`.
pub open spec fn static_groups(s: Schema, tables: Seq<usize>, t: int, cols: Seq<usize>) -> Seq<Seq<DynColumn>> {
    tables_fk_matches(s, tables, static_index(s, t, cols))->Ok_0
}

/// The values of items that are all readable.
pub open spec fn read_values(items: Seq<Result<Seq<Option<Value>>, DynamicColumnError>>) -> Seq<Seq<Option<Value>>> {
    items.map_values(|r: Result<Seq<Option<Value>>, DynamicColumnError>| r->Ok_0)
}

/// The values of items that are all readable and set.
pub open spec fn read_set_values(items: Seq<Result<Seq<Value>, DynamicColumnError>>) -> Seq<Seq<Value>> {
    items.map_values(|r: Result<Seq<Value>, DynamicColumnError>| r->Ok_0)
}

/// Returns the index made of columns `cols` of table `t`.
fn build_static_index(schema: &Schema, t: usize, cols: &Vec<usize>) -> (r: Vec<DynColumn>)
    requires
        forall|j: int| 0 <= j < cols@.len() ==> schema.has_column(t as int, #[trigger] cols@[j] as int),
    ensures
        r@ == static_index(*schema, t as int, cols@),
        index_wf(*schema, r@),
        index_kinds_ok(*schema, r@),
{
    let mut pairs: Vec<(usize, usize)> = Vec::new();
    let mut j: usize = 0;
    while j < cols.len()
        invariant
            j <= cols@.len(),
            pairs@ == cols@.take(j as int).map_values(|c: usize| (t, c)),
        decreases cols.len() - j,
    {
        pairs.push((t, cols[j]));
        assert(cols@.take(j + 1).map_values(|c: usize| (t, c)) =~= cols@.take(j as int).map_values(
            |c: usize| (t, c),
        ).push((t, cols@[j as int])));
        j += 1;
    }
    assert(cols@.take(cols@.len() as int) =~= cols@);
    assert(columns_wf(*schema, pairs@)) by {
        assert forall|k: int| 0 <= k < pairs@.len() implies schema.has_column(
            (#[trigger] pairs@[k]).0 as int,
            pairs@[k].1 as int,
        ) by {
            assert(pairs@[k] == (t, cols@[k]));
        }
    }
    let r = pairs.nested_dyn_columns(schema);
    assert(r@ =~= static_index(*schema, t as int, cols@));
    assert forall|k: int| 0 <= k < r@.len() implies (#[trigger] r@[k]).wf(*schema) by {
        assert(r@[k] == DynColumn::of_spec(*schema, t as int, cols@[k] as int));
    }
    r
}

/// Records whose tables have foreign keys referencing columns of another
/// table; these reads are never refused.
pub trait IterForeignKeys: IterDynForeignKeys {
    /// Returns the host columns of the foreign keys of the records' tables
    /// that reference columns `cols` of table `t`, table after table.
    fn iter_foreign_key_columns(&self, schema: &Schema, t: usize, cols: &Vec<usize>) -> (r: Vec<Vec<DynColumn>>)
        requires
            schema.wf(),
            self.dynamic_target_wf(*schema),
            forall|j: int| 0 <= j < cols@.len() ==> schema.has_column(t as int, #[trigger] cols@[j] as int),
        ensures
            groups_view(r@) == static_groups(*schema, self.key_tables(), t as int, cols@),
            host_groups_ok(*schema, self.key_tables(), groups_view(r@)),
    {
        let index = build_static_index(schema, t, cols);
        proof {
            lemma_tables_no_refusal(*schema, self.key_tables(), index@);
        }
        match self.iter_foreign_key_dyn_columns(schema, &index) {
            Ok(g) => g,
            Err(_) => Vec::new(),
        }
    }

    /// Returns, for each foreign key referencing columns `cols` of table
    /// `t`, the values of its host columns in the records, `NULL` included.
    fn iter_match_simple(&self, schema: &Schema, t: usize, cols: &Vec<usize>) -> (r: Vec<Vec<Option<Value>>>)
        requires
            schema.wf(),
            self.dynamic_target_wf(*schema),
            forall|j: int| 0 <= j < cols@.len() ==> schema.has_column(t as int, #[trigger] cols@[j] as int),
        ensures
            forall|i: int|
                0 <= i < static_groups(*schema, self.key_tables(), t as int, cols@).len() ==> (#[trigger] simple_items(
                    *self,
                    *schema,
                    static_groups(*schema, self.key_tables(), t as int, cols@),
                )[i]) is Ok,
            r@.map_values(|v: Vec<Option<Value>>| v@) == read_values(
                simple_items(*self, *schema, static_groups(*schema, self.key_tables(), t as int, cols@)),
            ),
    {
        let groups = self.iter_foreign_key_columns(schema, t, cols);
        let ghost gv = groups_view(groups@);
        let ghost items = simple_items(*self, *schema, gv);
        proof {
            assert forall|i: int| 0 <= i < gv.len() implies (#[trigger] items[i]) is Ok by {
                lemma_group_readable(*self, *schema, gv, i);
            }
        }
        let mut out: Vec<Vec<Option<Value>>> = Vec::new();
        let mut i: usize = 0;
        while i < groups.len()
            invariant
                i <= groups@.len(),
                gv == groups_view(groups@),
                items == simple_items(*self, *schema, gv),
                host_groups_ok(*schema, self.key_tables(), gv),
                self.dynamic_target_wf(*schema),
                forall|i: int| 0 <= i < gv.len() ==> (#[trigger] items[i]) is Ok,
                out@.map_values(|v: Vec<Option<Value>>| v@) == read_values(items.take(i as int)),
            decreases groups.len() - i,
        {
            assert forall|j: int| 0 <= j < groups@[i as int]@.len() implies (#[trigger] groups@[i as int]@[j]).wf(
                *schema,
            ) by {
                assert(gv[i as int] == groups@[i as int]@);
                assert(host_entry_ok(*schema, self.key_tables(), gv[i as int][j]));
            }
            assert(items[i as int] == dyn_values(*self, *schema, gv[i as int]));
            match self.try_get_dynamic_columns(schema, &groups[i]) {
                Ok(vs) => {
                    let ghost before = out@;
                    let ghost vv = vs@;
                    out.push(vs);
                    assert(out@.map_values(|v: Vec<Option<Value>>| v@) =~= before.map_values(
                        |v: Vec<Option<Value>>| v@,
                    ).push(vv));
                    assert(read_values(items.take(i + 1)) =~= read_values(items.take(i as int)).push(vv));
                },
                Err(_) => {},
            }
            i += 1;
        }
        assert(items.take(items.len() as int) =~= items);
        out
    }

    /// Returns, for each foreign key referencing columns `cols` of table `t`
    /// whose host columns hold no `NULL` in the records, their values.
    fn iter_match_full(&self, schema: &Schema, t: usize, cols: &Vec<usize>) -> (r: Vec<Vec<Value>>)
        requires
            schema.wf(),
            self.dynamic_target_wf(*schema),
            forall|j: int| 0 <= j < cols@.len() ==> schema.has_column(t as int, #[trigger] cols@[j] as int),
        ensures
            r@.map_values(|v: Vec<Value>| v@) == read_set_values(
                full_items(simple_items(*self, *schema, static_groups(*schema, self.key_tables(), t as int, cols@))),
            ),
    {
        let simple = self.iter_match_simple(schema, t, cols);
        let ghost items = simple_items(*self, *schema, static_groups(*schema, self.key_tables(), t as int, cols@));
        assert(simple@.map_values(|v: Vec<Option<Value>>| v@).len() == read_values(items).len());
        let mut out: Vec<Vec<Value>> = Vec::new();
        let mut i: usize = 0;
        assert(items.take(0) =~= Seq::<Result<Seq<Option<Value>>, DynamicColumnError>>::empty());
        assert(out@.map_values(|v: Vec<Value>| v@) =~= Seq::<Seq<Value>>::empty());
        while i < simple.len()
            invariant
                i <= simple@.len(),
                items.len() == simple@.len(),
                simple@.map_values(|v: Vec<Option<Value>>| v@) == read_values(items),
                forall|k: int| 0 <= k < items.len() ==> (#[trigger] items[k]) is Ok,
                out@.map_values(|v: Vec<Value>| v@) == read_set_values(full_items(items.take(i as int))),
            decreases simple.len() - i,
        {
            assert(items.take(i + 1).drop_last() =~= items.take(i as int));
            assert(items.take(i + 1).last() == items[i as int]);
            assert(items[i as int] is Ok);
            assert(simple@[i as int]@ == items[i as int]->Ok_0) by {
                assert(simple@.map_values(|v: Vec<Option<Value>>| v@)[i as int] == read_values(items)[i as int]);
            }
            match all_values_set(&simple[i]) {
                Some(v) => {
                    let ghost before = out@;
                    let ghost vv = v@;
                    out.push(v);
                    assert(out@.map_values(|v: Vec<Value>| v@) =~= before.map_values(|v: Vec<Value>| v@).push(vv));
                    assert(read_set_values(full_items(items.take(i + 1))) =~= read_set_values(
                        full_items(items.take(i as int)),
                    ).push(vv));
                },
                None => {},
            }
            i += 1;
        }
        assert(items.take(items.len() as int) =~= items);
        out
    }
}

/// The full match of readable items holds readable items only.
proof fn lemma_full_items_ok(items: Seq<Result<Seq<Option<Value>>, DynamicColumnError>>)
    requires
        forall|i: int| 0 <= i < items.len() ==> (#[trigger] items[i]) is Ok,
    ensures
        forall|i: int| 0 <= i < full_items(items).len() ==> (#[trigger] full_items(items)[i]) is Ok,
    decreases items.len(),
{
    if items.len() > 0 {
        let pre = items.drop_last();
        assert forall|i: int| 0 <= i < pre.len() implies (#[trigger] pre[i]) is Ok by {
            assert(pre[i] == items[i]);
        }
        lemma_full_items_ok(pre);
        assert(items[items.len() - 1] is Ok);
    }
}

/// Every group of a match on a schema index can be read from the records.
proof fn lemma_group_readable<T: IterDynForeignKeys>(target: T, s: Schema, groups: Seq<Seq<DynColumn>>, i: int)
    requires
        0 <= i < groups.len(),
        target.dynamic_target_wf(s),
        host_groups_ok(s, target.key_tables(), groups),
    ensures
        simple_items(target, s, groups)[i] is Ok,
{
    let g = groups[i];
    assert forall|j: int| 0 <= j < g.len() implies (#[trigger] target.dynamic_column_spec(s, g[j])) is Ok by {
        assert(host_entry_ok(s, target.key_tables(), groups[i][j]));
        target.lemma_host_column_readable(s, g[j]);
    }
    lemma_dyn_values_ok(target, s, g);
}

impl IterForeignKeys for Model {}

impl IterForeignKeys for Vec<Model> {}

} // verus!
