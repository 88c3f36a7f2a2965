//! Builders of records across a table hierarchy: a bundle per table, holding
//! the table's insertable values and the builders of the tables its
//! triangular same-as keys reference.
use vstd::prelude::*;
use crate::value::Value;
use crate::schema::{Schema, HorizontalKeyDef, same_as_target, fits};
use crate::builder_error::ValidationError;
use crate::hierarchy::{AncestorOfIndex, DescendantWithSelf};
use crate::model::{InsertableModel, NewValuesView, new_values_wf, check_ok, column_error};

verus! {

/// A bundle of a table's insertable values and its associated builders.
#[derive(Debug, PartialEq, Eq, Hash, PartialOrd, Ord)]
pub struct TableBuilderBundle {
    /// The insertable values of the table.
    pub insertable_model: InsertableModel,
    /// The builders of the mandatory triangular same-as keys, when set.
    pub nested_mandatory_associated_builders: Vec<Option<TableBuilder>>,
    /// The builders of the discretionary triangular same-as keys, when set.
    pub nested_discretionary_associated_builders: Vec<Option<TableBuilder>>,
}

/// A builder of a record of a table: one bundle for each of the table's
/// ancestors, root first, and one for the table itself.
#[derive(Debug, PartialEq, Eq, Hash, PartialOrd, Ord)]
pub struct TableBuilder {
    /// The table of the record.
    pub table: usize,
    /// The bundles of the ancestors and of the table.
    pub bundles: Vec<TableBuilderBundle>,
}

/// The abstract value of a bundle.
pub struct BundleView {
    /// The insertable values of the table.
    pub model: NewValuesView,
    /// The builders of the mandatory keys.
    pub mandatory: Seq<Option<BuilderView>>,
    /// The builders of the discretionary keys.
    pub discretionary: Seq<Option<BuilderView>>,
}

/// The abstract value of a builder.
pub struct BuilderView {
    /// The table of the record.
    pub table: int,
    /// The bundles of the ancestors and of the table.
    pub bundles: Seq<BundleView>,
}

/// The abstract value of a builder.
pub open spec fn builder_view(b: TableBuilder) -> BuilderView
    decreases b,
{
    BuilderView {
        table: b.table as int,
        bundles: Seq::new(
            b.bundles@.len(),
            |i: int|
                if 0 <= i < b.bundles@.len() {
                    bundle_view(b.bundles@[i])
                } else {
                    arbitrary()
                },
        ),
    }
}

/// The abstract value of an optional builder.
pub open spec fn opt_builder_view(o: Option<TableBuilder>) -> Option<BuilderView>
    decreases o,
{
    match o {
        Some(b) => Some(builder_view(b)),
        None => None,
    }
}

/// The abstract value of a bundle.
pub open spec fn bundle_view(b: TableBuilderBundle) -> BundleView
    decreases b,
{
    BundleView {
        model: b.insertable_model@,
        mandatory: Seq::new(
            b.nested_mandatory_associated_builders@.len(),
            |i: int|
                if 0 <= i < b.nested_mandatory_associated_builders@.len() {
                    opt_builder_view(b.nested_mandatory_associated_builders@[i])
                } else {
                    None
                },
        ),
        discretionary: Seq::new(
            b.nested_discretionary_associated_builders@.len(),
            |i: int|
                if 0 <= i < b.nested_discretionary_associated_builders@.len() {
                    opt_builder_view(b.nested_discretionary_associated_builders@[i])
                } else {
                    None
                },
        ),
    }
}

/// The abstract values of a sequence of optional builders.
pub open spec fn slots_view(v: Seq<Option<TableBuilder>>) -> Seq<Option<BuilderView>> {
    Seq::new(v.len(), |i: int| opt_builder_view(v[i]))
}

impl View for TableBuilder {
    type V = BuilderView;

    open spec fn view(&self) -> BuilderView {
        builder_view(*self)
    }
}

impl View for TableBuilderBundle {
    type V = BundleView;

    open spec fn view(&self) -> BundleView {
        bundle_view(*self)
    }
}

/// A well-formed builder: a table of the schema, one well-formed bundle
/// per ancestor and for the table itself.
pub open spec fn builder_wf(s: Schema, b: BuilderView) -> bool
    decreases b,
{
    &&& s.has_table(b.table)
    &&& b.bundles.len() == s.chain(b.table).len()
    &&& forall|i: int|
        #![trigger b.bundles[i]]
        0 <= i < b.bundles.len() ==> bundle_wf(s, s.chain(b.table)[i] as int, b.bundles[i])
}

/// A well-formed slot of the builder of key `k`.
pub open spec fn slot_wf(s: Schema, k: HorizontalKeyDef, slot: Option<BuilderView>) -> bool
    decreases slot,
{
    match slot {
        Some(nb) => nb.table == k.referenced_table as int && builder_wf(s, nb),
        None => true,
    }
}

/// A well-formed bundle of table `t`: well-formed insertable values of the
/// table, and one well-formed slot per key.
pub open spec fn bundle_wf(s: Schema, t: int, bv: BundleView) -> bool
    decreases bv,
{
    &&& bv.model.table == t
    &&& new_values_wf(s, bv.model)
    &&& bv.mandatory.len() == s.tables@[t].mandatory_keys@.len()
    &&& bv.discretionary.len() == s.tables@[t].discretionary_keys@.len()
    &&& forall|k: int|
        #![trigger bv.mandatory[k]]
        0 <= k < bv.mandatory.len() ==> slot_wf(s, s.tables@[t].mandatory_keys@[k], bv.mandatory[k])
    &&& forall|k: int|
        #![trigger bv.discretionary[k]]
        0 <= k < bv.discretionary.len() ==> slot_wf(
            s,
            s.tables@[t].discretionary_keys@[k],
            bv.discretionary[k],
        )
}

/// The outcome of setting column `c` of bundle `i` of a builder to `v`:
/// the builder after the attempt, and the error, if a value was refused.
pub open spec fn builder_try_set(s: Schema, b: BuilderView, i: int, c: int, v: Option<Value>) -> (
    BuilderView,
    Option<ValidationError>,
)
    decreases b,
{
    if 0 <= i < b.bundles.len() {
        let (nb, e) = bundle_try_set_mode(s, b.bundles[i], c, v, false);
        (BuilderView { table: b.table, bundles: b.bundles.update(i, nb) }, e)
    } else {
        (b, None)
    }
}

/// The outcome of setting column `c` of a bundle to `v`: the value is
/// validated, then passed on, when it is not `NULL`, to the builders of the
/// discretionary keys (first to last) and of the mandatory keys (last to
/// first) whose host columns hold `c`, and finally stored.
pub open spec fn bundle_try_set_mode(s: Schema, bv: BundleView, c: int, v: Option<Value>, pass_null: bool) -> (
    BundleView,
    Option<ValidationError>,
)
    decreases bv,
{
    let t = bv.model.table;
    if !check_ok(s, t, c, v) {
        (bv, Some(column_error(s, t, c)))
    } else {
        let (disc, e1) = discretionary_try_set(
            s,
            bv.discretionary,
            s.tables@[t].discretionary_keys@,
            c,
            v, pass_null,
        );
        if e1 is Some {
            (BundleView { discretionary: disc, ..bv }, e1)
        } else {
            let (mand, e2) = mandatory_try_set(s, bv.mandatory, s.tables@[t].mandatory_keys@, c, v, pass_null);
            if e2 is Some {
                (BundleView { discretionary: disc, mandatory: mand, ..bv }, e2)
            } else {
                (
                    BundleView {
                        model: NewValuesView {
                            table: bv.model.table,
                            slots: bv.model.slots.update(c, Some(v)),
                        },
                        mandatory: mand,
                        discretionary: disc,
                    },
                    None,
                )
            }
        }
    }
}

/// The outcome of passing value `v` of host column `c` on to the builder in
/// the slot of key `k`: nothing happens without a builder, when `c` is not a
/// host column of the key, or when `v` is `NULL`.
pub open spec fn slot_try_set(
    s: Schema,
    slot: Option<BuilderView>,
    k: HorizontalKeyDef,
    c: int,
    v: Option<Value>,
    pass_null: bool,
) -> (
    Option<BuilderView>,
    Option<ValidationError>,
)
    decreases slot,
{
    match slot {
        Some(nb) => match same_as_target(k, c as usize) {
            Some(f) => if v is Some || pass_null {
                let (nb2, e) = builder_try_set(s, nb, nb.bundles.len() - 1, f as int, v);
                (Some(nb2), e)
            } else {
                (slot, None)
            },
            None => (slot, None),
        },
        None => (slot, None),
    }
}

/// The outcome of passing a value on to the discretionary builders, first
/// to last, stopping at the first error.
pub open spec fn discretionary_try_set(
    s: Schema,
    slots: Seq<Option<BuilderView>>,
    keys: Seq<HorizontalKeyDef>,
    c: int,
    v: Option<Value>,
    pass_null: bool,
) -> (Seq<Option<BuilderView>>, Option<ValidationError>)
    decreases slots,
{
    if slots.len() == 0 {
        (slots, None)
    } else {
        let (h, e) = slot_try_set(s, slots[0], keys[0], c, v, pass_null);
        if e is Some {
            (slots.update(0, h), e)
        } else {
            let (rest, e2) = discretionary_try_set(s, slots.skip(1), keys.skip(1), c, v, pass_null);
            (seq![h] + rest, e2)
        }
    }
}

/// The outcome of passing a value on to the mandatory builders, last to
/// first, stopping at the first error.
pub open spec fn mandatory_try_set(
    s: Schema,
    slots: Seq<Option<BuilderView>>,
    keys: Seq<HorizontalKeyDef>,
    c: int,
    v: Option<Value>,
    pass_null: bool,
) -> (Seq<Option<BuilderView>>, Option<ValidationError>)
    decreases slots,
{
    if slots.len() == 0 {
        (slots, None)
    } else {
        let n = slots.len() - 1;
        let (h, e) = slot_try_set(s, slots[n], keys[n], c, v, pass_null);
        if e is Some {
            (slots.update(n, h), e)
        } else {
            let (rest, e2) = mandatory_try_set(s, slots.take(n), keys.take(n), c, v, pass_null);
            (rest.push(h), e2)
        }
    }
}

} // verus!

verus! {

/// The outcome of setting column `c` of a bundle to `v`, a `NULL` not
/// being passed on to the associated builders.
pub open spec fn bundle_try_set(s: Schema, bv: BundleView, c: int, v: Option<Value>) -> (
    BundleView,
    Option<ValidationError>,
) {
    bundle_try_set_mode(s, bv, c, v, false)
}

/// Whether the column of the referenced table that key `k` pairs with host
/// column `c`, if any, accepts `NULL`.
pub open spec fn null_passes(s: Schema, k: HorizontalKeyDef, c: usize) -> bool {
    match same_as_target(k, c) {
        Some(f) => s.column(k.referenced_table as int, f as int).nullable,
        None => true,
    }
}

/// Whether every key of `keys` that hosts column `c` pairs it with a column
/// that accepts `NULL`.
pub open spec fn nulls_pass(s: Schema, keys: Seq<HorizontalKeyDef>, c: usize) -> bool {
    forall|k: int| 0 <= k < keys.len() ==> null_passes(s, #[trigger] keys[k], c)
}

/// The error of an outcome, if any.
pub open spec fn err_of(r: Result<(), ValidationError>) -> Option<ValidationError> {
    match r {
        Ok(()) => None,
        Err(e) => Some(e),
    }
}

/// Passes value `v` of host column `c` of table `t` on to the builder in
/// the slot of key `key`.
fn slot_try_set_owned(
    schema: &Schema,
    slot: Option<TableBuilder>,
    key: &HorizontalKeyDef,
    t: usize,
    c: usize,
    v: Option<Value>,
    pass_null: bool,
) -> (r: (Option<TableBuilder>, Result<(), ValidationError>))
    requires
        schema.wf(),
        schema.has_column(t as int, c as int),
        schema.key_wf(t as int, *key),
        fits(schema.column(t as int, c as int), v),
        slot_wf(*schema, *key, opt_builder_view(slot)),
        pass_null && v is None ==> null_passes(*schema, *key, c),
    ensures
        opt_builder_view(r.0) == slot_try_set(*schema, opt_builder_view(slot), *key, c as int, v, pass_null).0,
        err_of(r.1) == slot_try_set(*schema, opt_builder_view(slot), *key, c as int, v, pass_null).1,
        slot_wf(*schema, *key, opt_builder_view(r.0)),
    decreases slot,
{
    match slot {
        Some(nb) => {
            match key.target_of(c) {
                Some(f) => {
                    if v.is_some() || pass_null {
                        proof {
                            let p = choose|p: int| crate::schema::is_first_position(key.host_columns@, c, p);
                            assert(key.host_columns@[p] == c);
                            assert(builder_wf(*schema, nb@));
                            assert(schema.chain(nb@.table).last() == nb@.table);
                        }
                        let n = nb.bundles.len();
                        let (nb2, res) = builder_try_set_owned(schema, nb, n - 1, f, v);
                        (Some(nb2), res)
                    } else {
                        (Some(nb), Ok(()))
                    }
                },
                None => (Some(nb), Ok(())),
            }
        },
        None => (None, Ok(())),
    }
}

/// Sets column `c` of bundle `i` of builder `b` to `v`, passing the value
/// on to the associated builders.
pub(crate) fn builder_try_set_owned(schema: &Schema, b: TableBuilder, i: usize, c: usize, v: Option<Value>) -> (r: (
    TableBuilder,
    Result<(), ValidationError>,
))
    requires
        schema.wf(),
        builder_wf(*schema, b@),
        i < b@.bundles.len(),
        schema.has_column(schema.chain(b@.table)[i as int] as int, c as int),
        fits(schema.column(schema.chain(b@.table)[i as int] as int, c as int), v),
    ensures
        r.0@ == builder_try_set(*schema, b@, i as int, c as int, v).0,
        err_of(r.1) == builder_try_set(*schema, b@, i as int, c as int, v).1,
        builder_wf(*schema, r.0@),
    decreases b,
{
    let ghost orig = b;
    let mut b = b;
    let bundle = b.bundles.remove(i);
    proof {
        assert(decreases_to!(orig => orig.bundles));
        assert(decreases_to!(orig.bundles => orig.bundles@));
        assert(decreases_to!(orig.bundles@ => orig.bundles@[i as int]));
        assert(bundle == orig.bundles@[i as int]);
        assert(orig@.bundles[i as int] == bundle@);
        assert(bundle_wf(*schema, schema.chain(orig@.table)[i as int] as int, bundle@));
    }
    let (nb, res) = bundle_try_set_owned(schema, bundle, c, v, false);
    b.bundles.insert(i, nb);
    proof {
        let expected = builder_try_set(*schema, orig@, i as int, c as int, v);
        assert(b.bundles@ == orig.bundles@.update(i as int, nb));
        assert(b@.bundles =~= orig@.bundles.update(i as int, nb@));
        assert(b@ == expected.0);
        assert forall|j: int| 0 <= j < b@.bundles.len() implies bundle_wf(
            *schema,
            schema.chain(b@.table)[j] as int,
            #[trigger] b@.bundles[j],
        ) by {
            if j != i as int {
                assert(b@.bundles[j] == orig@.bundles[j]);
            }
        }
    }
    (b, res)
}

} // verus!

verus! {

/// Whether the slots are well-formed slots of `keys`, keys of table `t`.
pub open spec fn slots_wf(s: Schema, t: int, keys: Seq<HorizontalKeyDef>, slots: Seq<Option<TableBuilder>>) -> bool {
    &&& slots.len() == keys.len()
    &&& forall|k: int|
        #![trigger slots[k]]
        0 <= k < slots.len() ==> s.key_wf(t, keys[k]) && slot_wf(s, keys[k], opt_builder_view(slots[k]))
}

/// Passes value `v` of column `c` of table `t` on to the discretionary
/// builders, first to last, stopping at the first error.
pub(crate) fn discretionary_try_set_owned(
    schema: &Schema,
    input: Vec<Option<TableBuilder>>,
    keys: &Vec<HorizontalKeyDef>,
    t: usize,
    c: usize,
    v: Option<Value>,
    pass_null: bool,
) -> (r: (Vec<Option<TableBuilder>>, Result<(), ValidationError>))
    requires
        schema.wf(),
        schema.has_column(t as int, c as int),
        fits(schema.column(t as int, c as int), v),
        slots_wf(*schema, t as int, keys@, input@),
        pass_null && v is None ==> nulls_pass(*schema, keys@, c),
    ensures
        slots_view(r.0@) == discretionary_try_set(*schema, slots_view(input@), keys@, c as int, v, pass_null).0,
        err_of(r.1) == discretionary_try_set(*schema, slots_view(input@), keys@, c as int, v, pass_null).1,
        slots_wf(*schema, t as int, keys@, r.0@),
    decreases input,
{
    let ghost orig = input;
    let ghost v0 = slots_view(input@);
    let ghost full = discretionary_try_set(*schema, v0, keys@, c as int, v, pass_null);
    let mut slots = input;
    let mut k: usize = 0;
    proof {
        assert(v0.skip(0) =~= v0);
        assert(keys@.skip(0) =~= keys@);
        assert(slots_view(slots@).take(0) + full.0 =~= full.0);
    }
    while k < slots.len()
        invariant
            orig == input,
            v0 == slots_view(orig@),
            full == discretionary_try_set(*schema, v0, keys@, c as int, v, pass_null),
            schema.wf(),
            schema.has_column(t as int, c as int),
            fits(schema.column(t as int, c as int), v),
            slots_wf(*schema, t as int, keys@, orig@),
            slots_wf(*schema, t as int, keys@, slots@),
            pass_null && v is None ==> nulls_pass(*schema, keys@, c),
            k <= slots@.len(),
            slots@.len() == orig@.len(),
            forall|j: int| k <= j < slots@.len() ==> slots@[j] == orig@[j],
            full.0 == slots_view(slots@).take(k as int) + discretionary_try_set(
                *schema,
                v0.skip(k as int),
                keys@.skip(k as int),
                c as int,
                v, pass_null,
            ).0,
            full.1 == discretionary_try_set(*schema, v0.skip(k as int), keys@.skip(k as int), c as int, v, pass_null).1,
        decreases slots.len() - k,
    {
        let mut slot: Option<TableBuilder> = None;
        std::mem::swap(&mut slot, &mut slots[k]);
        proof {
            assert(slot == orig@[k as int]);
            assert(decreases_to!(orig => orig@));
            assert(decreases_to!(orig@ => orig@[k as int]));
            assert(slots_wf(*schema, t as int, keys@, orig@));
            assert(schema.key_wf(t as int, keys@[k as int]));
        }
        assert(pass_null && v is None ==> null_passes(*schema, keys@[k as int], c));
        let (ns, res) = slot_try_set_owned(schema, slot, &keys[k], t, c, v, pass_null);
        slots.set(k, ns);
        proof {
            let tail = v0.skip(k as int);
            let ktail = keys@.skip(k as int);
            assert(tail[0] == opt_builder_view(orig@[k as int]));
            assert(ktail[0] == keys@[k as int]);
            assert(tail.skip(1) =~= v0.skip(k + 1));
            assert(ktail.skip(1) =~= keys@.skip(k + 1));
            assert(slots_view(slots@).take(k + 1) =~= slots_view(slots@).take(k as int).push(
                opt_builder_view(ns),
            ));
            assert forall|j: int| 0 <= j < k implies slots_view(slots@)[j] == #[trigger] slots_view(
                slots@,
            ).take(k as int)[j] by {}
        }
        match res {
            Err(e) => {
                proof {
                    let tail = v0.skip(k as int);
                    assert(full.0 =~= slots_view(slots@).take(k as int) + tail.update(
                        0,
                        opt_builder_view(ns),
                    ));
                    assert(slots_view(slots@) =~= slots_view(slots@).take(k as int) + tail.update(
                        0,
                        opt_builder_view(ns),
                    ));
                }
                return (slots, Err(e));
            },
            Ok(()) => {},
        }
        proof {
            let rest = discretionary_try_set(*schema, v0.skip(k + 1), keys@.skip(k + 1), c as int, v, pass_null);
            assert(full.0 =~= slots_view(slots@).take(k + 1) + rest.0);
        }
        k += 1;
    }
    proof {
        assert(v0.skip(k as int) =~= Seq::<Option<BuilderView>>::empty());
        assert(slots_view(slots@).take(k as int) =~= slots_view(slots@));
    }
    (slots, Ok(()))
}

/// Passes value `v` of column `c` of table `t` on to the mandatory builders,
/// last to first, stopping at the first error.
fn mandatory_try_set_owned(
    schema: &Schema,
    input: Vec<Option<TableBuilder>>,
    keys: &Vec<HorizontalKeyDef>,
    t: usize,
    c: usize,
    v: Option<Value>,
    pass_null: bool,
) -> (r: (Vec<Option<TableBuilder>>, Result<(), ValidationError>))
    requires
        schema.wf(),
        schema.has_column(t as int, c as int),
        fits(schema.column(t as int, c as int), v),
        slots_wf(*schema, t as int, keys@, input@),
        pass_null && v is None ==> nulls_pass(*schema, keys@, c),
    ensures
        slots_view(r.0@) == mandatory_try_set(*schema, slots_view(input@), keys@, c as int, v, pass_null).0,
        err_of(r.1) == mandatory_try_set(*schema, slots_view(input@), keys@, c as int, v, pass_null).1,
        slots_wf(*schema, t as int, keys@, r.0@),
    decreases input,
{
    let ghost orig = input;
    let ghost v0 = slots_view(input@);
    let ghost full = mandatory_try_set(*schema, v0, keys@, c as int, v, pass_null);
    let mut slots = input;
    let mut k: usize = slots.len();
    proof {
        assert(v0.take(k as int) =~= v0);
        assert(keys@.take(k as int) =~= keys@);
        assert(full.0 + slots_view(slots@).skip(k as int) =~= full.0);
    }
    while k > 0
        invariant
            orig == input,
            v0 == slots_view(orig@),
            full == mandatory_try_set(*schema, v0, keys@, c as int, v, pass_null),
            schema.wf(),
            schema.has_column(t as int, c as int),
            fits(schema.column(t as int, c as int), v),
            slots_wf(*schema, t as int, keys@, orig@),
            slots_wf(*schema, t as int, keys@, slots@),
            pass_null && v is None ==> nulls_pass(*schema, keys@, c),
            k <= slots@.len(),
            slots@.len() == orig@.len(),
            forall|j: int| 0 <= j < k ==> slots@[j] == orig@[j],
            full.0 == mandatory_try_set(*schema, v0.take(k as int), keys@.take(k as int), c as int, v, pass_null).0
                + slots_view(slots@).skip(k as int),
            full.1 == mandatory_try_set(*schema, v0.take(k as int), keys@.take(k as int), c as int, v, pass_null).1,
        decreases k,
    {
        k -= 1;
        let mut slot: Option<TableBuilder> = None;
        std::mem::swap(&mut slot, &mut slots[k]);
        proof {
            assert(slot == orig@[k as int]);
            assert(decreases_to!(orig => orig@));
            assert(decreases_to!(orig@ => orig@[k as int]));
            assert(schema.key_wf(t as int, keys@[k as int]));
        }
        assert(pass_null && v is None ==> null_passes(*schema, keys@[k as int], c));
        let (ns, res) = slot_try_set_owned(schema, slot, &keys[k], t, c, v, pass_null);
        slots.set(k, ns);
        proof {
            let pre = v0.take(k + 1);
            let kpre = keys@.take(k + 1);
            assert(pre[k as int] == opt_builder_view(orig@[k as int]));
            assert(kpre[k as int] == keys@[k as int]);
            assert(pre.take(k as int) =~= v0.take(k as int));
            assert(kpre.take(k as int) =~= keys@.take(k as int));
            assert(slots_view(slots@).skip(k as int) =~= seq![opt_builder_view(ns)] + slots_view(
                slots@,
            ).skip(k + 1));
        }
        match res {
            Err(e) => {
                proof {
                    let pre = v0.take(k + 1);
                    assert(full.0 =~= pre.update(k as int, opt_builder_view(ns)) + slots_view(slots@).skip(
                        k + 1,
                    ));
                    assert(slots_view(slots@) =~= pre.update(k as int, opt_builder_view(ns)) + slots_view(
                        slots@,
                    ).skip(k + 1));
                }
                return (slots, Err(e));
            },
            Ok(()) => {},
        }
        proof {
            let rest = mandatory_try_set(*schema, v0.take(k as int), keys@.take(k as int), c as int, v, pass_null);
            assert(full.0 =~= rest.0 + slots_view(slots@).skip(k as int));
        }
    }
    proof {
        assert(v0.take(0) =~= Seq::<Option<BuilderView>>::empty());
        assert(slots_view(slots@).skip(0) =~= slots_view(slots@));
    }
    (slots, Ok(()))
}

/// Sets column `c` of a bundle to `v`, passing the value on to the
/// associated builders.
pub(crate) fn bundle_try_set_owned(
    schema: &Schema,
    bundle: TableBuilderBundle,
    c: usize,
    v: Option<Value>,
    pass_null: bool,
) -> (r: (TableBuilderBundle, Result<(), ValidationError>))
    requires
        schema.wf(),
        bundle_wf(*schema, bundle@.model.table, bundle@),
        schema.has_column(bundle@.model.table, c as int),
        fits(schema.column(bundle@.model.table, c as int), v),
        pass_null && v is None ==> nulls_pass(*schema, schema.tables@[bundle@.model.table].mandatory_keys@, c)
            && nulls_pass(*schema, schema.tables@[bundle@.model.table].discretionary_keys@, c),
    ensures
        r.0@ == bundle_try_set_mode(*schema, bundle@, c as int, v, pass_null).0,
        err_of(r.1) == bundle_try_set_mode(*schema, bundle@, c as int, v, pass_null).1,
        bundle_wf(*schema, bundle@.model.table, r.0@),
    decreases bundle,
{
    let ghost orig = bundle;
    let t = bundle.insertable_model.table;
    if let Err(e) = crate::model::validate_value(schema, t, c, &v) {
        return (bundle, Err(e));
    }
    let mut bundle = bundle;
    proof {
        assert(schema.table_wf(t as int));
        let td = schema.tables@[t as int];
        assert(bundle_wf(*schema, t as int, orig@));
        assert(slots_view(orig.nested_discretionary_associated_builders@) =~= orig@.discretionary);
        assert(slots_view(orig.nested_mandatory_associated_builders@) =~= orig@.mandatory);
        assert forall|k: int|
            #![trigger orig.nested_discretionary_associated_builders@[k]]
            0 <= k < orig.nested_discretionary_associated_builders@.len() implies schema.key_wf(
            t as int,
            td.discretionary_keys@[k],
        ) && slot_wf(
            *schema,
            td.discretionary_keys@[k],
            opt_builder_view(orig.nested_discretionary_associated_builders@[k]),
        ) by {
            assert(orig@.discretionary[k] == opt_builder_view(
                orig.nested_discretionary_associated_builders@[k],
            ));
        }
        assert forall|k: int|
            #![trigger orig.nested_mandatory_associated_builders@[k]]
            0 <= k < orig.nested_mandatory_associated_builders@.len() implies schema.key_wf(
            t as int,
            td.mandatory_keys@[k],
        ) && slot_wf(
            *schema,
            td.mandatory_keys@[k],
            opt_builder_view(orig.nested_mandatory_associated_builders@[k]),
        ) by {
            assert(orig@.mandatory[k] == opt_builder_view(orig.nested_mandatory_associated_builders@[k]));
        }
    }
    let mut disc: Vec<Option<TableBuilder>> = Vec::new();
    std::mem::swap(&mut disc, &mut bundle.nested_discretionary_associated_builders);
    proof {
        assert(disc == orig.nested_discretionary_associated_builders);
        assert(decreases_to!(orig => orig.nested_discretionary_associated_builders));
    }
    let (disc2, e1) = discretionary_try_set_owned(
        schema,
        disc,
        &schema.tables[t].discretionary_keys,
        t,
        c,
        v, pass_null,
    );
    bundle.nested_discretionary_associated_builders = disc2;
    proof {
        assert(bundle@.discretionary =~= slots_view(disc2@));
        assert(bundle@.mandatory =~= orig@.mandatory);
        assert(bundle@.model == orig@.model);
    }
    if let Err(e) = e1 {
        return (bundle, Err(e));
    }
    let mut mand: Vec<Option<TableBuilder>> = Vec::new();
    std::mem::swap(&mut mand, &mut bundle.nested_mandatory_associated_builders);
    proof {
        assert(mand == orig.nested_mandatory_associated_builders);
        assert(decreases_to!(orig => orig.nested_mandatory_associated_builders));
    }
    let (mand2, e2) = mandatory_try_set_owned(schema, mand, &schema.tables[t].mandatory_keys, t, c, v, pass_null);
    bundle.nested_mandatory_associated_builders = mand2;
    proof {
        assert(bundle@.mandatory =~= slots_view(mand2@));
        assert(bundle@.discretionary =~= slots_view(disc2@));
    }
    if let Err(e) = e2 {
        return (bundle, Err(e));
    }
    bundle.insertable_model.set_column(c, v);
    proof {
        assert(bundle@.mandatory =~= slots_view(mand2@));
        assert(bundle@.discretionary =~= slots_view(disc2@));
    }
    (bundle, Ok(()))
}

} // verus!

verus! {

/// A bundle without associated builders and without values, holding nothing.
fn empty_bundle() -> (r: TableBuilderBundle)
    ensures
        r@.model.table == 0,
        r@.model.slots.len() == 0,
        r@.mandatory.len() == 0,
        r@.discretionary.len() == 0,
{
    TableBuilderBundle {
        insertable_model: InsertableModel { table: 0, values: Vec::new() },
        nested_mandatory_associated_builders: Vec::new(),
        nested_discretionary_associated_builders: Vec::new(),
    }
}

/// Returns `n` empty slots.
fn empty_slots(n: usize) -> (r: Vec<Option<TableBuilder>>)
    ensures
        r@.len() == n,
        forall|k: int| 0 <= k < n ==> r@[k] is None,
{
    let mut out: Vec<Option<TableBuilder>> = Vec::new();
    let mut k: usize = 0;
    while k < n
        invariant
            k <= n,
            out@.len() == k,
            forall|j: int| 0 <= j < k ==> out@[j] is None,
        decreases n - k,
    {
        out.push(None);
        k += 1;
    }
    out
}

impl TableBuilderBundle {
    /// Returns the bundle a new builder of table `t` starts with: default
    /// values, and no associated builder.
    pub fn new(schema: &Schema, t: usize) -> (r: TableBuilderBundle)
        requires
            schema.wf(),
            schema.has_table(t as int),
        ensures
            r@.model.table == t,
            r@.model.slots == crate::model::default_slots(*schema, t as int),
            r@.mandatory.len() == schema.tables@[t as int].mandatory_keys@.len(),
            r@.discretionary.len() == schema.tables@[t as int].discretionary_keys@.len(),
            forall|k: int| 0 <= k < r@.mandatory.len() ==> r@.mandatory[k] is None,
            forall|k: int| 0 <= k < r@.discretionary.len() ==> r@.discretionary[k] is None,
            bundle_wf(*schema, t as int, r@),
    {
        let model = InsertableModel::new(schema, t);
        let mand = empty_slots(schema.tables[t].mandatory_keys.len());
        let disc = empty_slots(schema.tables[t].discretionary_keys.len());
        let r = TableBuilderBundle {
            insertable_model: model,
            nested_mandatory_associated_builders: mand,
            nested_discretionary_associated_builders: disc,
        };
        proof {
            assert(schema.table_wf(t as int));
            let td = schema.tables@[t as int];
            assert forall|c: int| 0 <= c < r@.model.slots.len() implies match #[trigger] r@.model.slots[c] {
                Some(cell) => fits(schema.column(t as int, c), cell),
                None => true,
            } by {
                assert(r@.model.slots[c] == td.columns@[c].default_value);
            }
            assert forall|k: int| 0 <= k < r@.mandatory.len() implies r@.mandatory[k] is None by {
                assert(r@.mandatory[k] == opt_builder_view(mand@[k]));
            }
            assert forall|k: int| 0 <= k < r@.discretionary.len() implies r@.discretionary[k] is None by {
                assert(r@.discretionary[k] == opt_builder_view(disc@[k]));
            }
        }
        r
    }

    /// Returns the table of the bundle.
    pub fn table(&self) -> (r: usize)
        ensures
            r as int == self@.model.table,
    {
        self.insertable_model.table
    }

    /// Returns the validation outcome of value `v` for column `c` of the
    /// bundle's table.
    pub fn validate_column_in_context(&self, schema: &Schema, c: usize, v: &Option<Value>) -> (r: Result<(), ValidationError>)
        requires
            schema.has_column(self@.model.table, c as int),
        ensures
            r is Ok <==> check_ok(*schema, self@.model.table, c as int, *v),
            r matches Err(e) ==> e == column_error(*schema, self@.model.table, c as int),
    {
        crate::model::validate_value(schema, self.insertable_model.table, c, v)
    }

    /// Sets column `c` to `v`: the value is validated, then passed on, when
    /// it is not `NULL`, to the associated builders whose keys host `c`, and
    /// finally stored. Stops at the first refused value.
    pub fn try_set_column(&mut self, schema: &Schema, c: usize, v: Option<Value>) -> (r: Result<(), ValidationError>)
        requires
            schema.wf(),
            bundle_wf(*schema, old(self)@.model.table, old(self)@),
            schema.has_column(old(self)@.model.table, c as int),
            fits(schema.column(old(self)@.model.table, c as int), v),
        ensures
            final(self)@ == bundle_try_set(*schema, old(self)@, c as int, v).0,
            err_of(r) == bundle_try_set(*schema, old(self)@, c as int, v).1,
            bundle_wf(*schema, old(self)@.model.table, final(self)@),
    {
        let mut tmp = empty_bundle();
        std::mem::swap(&mut tmp, self);
        let (nb, r) = bundle_try_set_owned(schema, tmp, c, v, false);
        *self = nb;
        r
    }

    /// Sets column `c` to `v`, a value every column involved accepts.
    pub fn set_column(&mut self, schema: &Schema, c: usize, v: Option<Value>)
        requires
            schema.wf(),
            bundle_wf(*schema, old(self)@.model.table, old(self)@),
            schema.has_column(old(self)@.model.table, c as int),
            fits(schema.column(old(self)@.model.table, c as int), v),
            bundle_try_set(*schema, old(self)@, c as int, v).1 is None,
        ensures
            final(self)@ == bundle_try_set(*schema, old(self)@, c as int, v).0,
            bundle_wf(*schema, old(self)@.model.table, final(self)@),
    {
        let _ = self.try_set_column(schema, c, v);
    }

    /// Sets the builder of mandatory key `k`.
    pub fn set_mandatory_builder(&mut self, schema: &Schema, k: usize, builder: TableBuilder)
        requires
            schema.wf(),
            bundle_wf(*schema, old(self)@.model.table, old(self)@),
            k < old(self)@.mandatory.len(),
            builder_wf(*schema, builder@),
            builder@.table == schema.tables@[old(self)@.model.table].mandatory_keys@[k as int].referenced_table,
        ensures
            final(self)@ == (BundleView {
                mandatory: old(self)@.mandatory.update(k as int, Some(builder@)),
                ..old(self)@
            }),
            bundle_wf(*schema, old(self)@.model.table, final(self)@),
    {
        let ghost before = self@;
        self.nested_mandatory_associated_builders.set(k, Some(builder));
        proof {
            assert(self@.mandatory =~= before.mandatory.update(k as int, Some(builder@)));
            assert(self@.discretionary =~= before.discretionary);
        }
    }

    /// Sets the builder of mandatory key `k`; this cannot fail.
    pub fn try_set_mandatory_builder(&mut self, schema: &Schema, k: usize, builder: TableBuilder) -> (r: Result<(), ValidationError>)
        requires
            schema.wf(),
            bundle_wf(*schema, old(self)@.model.table, old(self)@),
            k < old(self)@.mandatory.len(),
            builder_wf(*schema, builder@),
            builder@.table == schema.tables@[old(self)@.model.table].mandatory_keys@[k as int].referenced_table,
        ensures
            r is Ok,
            final(self)@ == (BundleView {
                mandatory: old(self)@.mandatory.update(k as int, Some(builder@)),
                ..old(self)@
            }),
            bundle_wf(*schema, old(self)@.model.table, final(self)@),
    {
        self.set_mandatory_builder(schema, k, builder);
        Ok(())
    }

    /// Sets the builder of discretionary key `k`.
    pub fn set_discretionary_builder(&mut self, schema: &Schema, k: usize, builder: TableBuilder)
        requires
            schema.wf(),
            bundle_wf(*schema, old(self)@.model.table, old(self)@),
            k < old(self)@.discretionary.len(),
            builder_wf(*schema, builder@),
            builder@.table == schema.tables@[old(self)@.model.table].discretionary_keys@[k as int].referenced_table,
        ensures
            final(self)@ == (BundleView {
                discretionary: old(self)@.discretionary.update(k as int, Some(builder@)),
                ..old(self)@
            }),
            bundle_wf(*schema, old(self)@.model.table, final(self)@),
    {
        let ghost before = self@;
        self.nested_discretionary_associated_builders.set(k, Some(builder));
        proof {
            assert(self@.discretionary =~= before.discretionary.update(k as int, Some(builder@)));
            assert(self@.mandatory =~= before.mandatory);
        }
    }

    /// Sets the builder of discretionary key `k`; this cannot fail.
    pub fn try_set_discretionary_builder(&mut self, schema: &Schema, k: usize, builder: TableBuilder) -> (r: Result<(), ValidationError>)
        requires
            schema.wf(),
            bundle_wf(*schema, old(self)@.model.table, old(self)@),
            k < old(self)@.discretionary.len(),
            builder_wf(*schema, builder@),
            builder@.table == schema.tables@[old(self)@.model.table].discretionary_keys@[k as int].referenced_table,
        ensures
            r is Ok,
            final(self)@ == (BundleView {
                discretionary: old(self)@.discretionary.update(k as int, Some(builder@)),
                ..old(self)@
            }),
            bundle_wf(*schema, old(self)@.model.table, final(self)@),
    {
        self.set_discretionary_builder(schema, k, builder);
        Ok(())
    }
}

} // verus!

verus! {

/// The position of table `a` among the ancestors of `t` followed by `t`.
pub open spec fn table_position(s: Schema, t: int, a: int) -> int {
    choose|i: int| #[trigger] crate::schema::is_first_position(s.chain(t), a as usize, i)
}

/// Returns the position of table `a` among the ancestors of `t` followed by
/// `t`, if `t` descends from `a`.
pub(crate) fn find_position(schema: &Schema, t: usize, a: usize) -> (r: Option<usize>)
    requires
        schema.wf(),
        schema.has_table(t as int),
    ensures
        match r {
            Some(i) => i as int == table_position(*schema, t as int, a as int)
                && crate::schema::is_first_position(schema.chain(t as int), a, i as int),
            None => !schema.chain(t as int).contains(a),
        },
{
    let r = schema.ancestor_index(t, a);
    if let Some(p) = r {
        proof {
            let chain = schema.chain(t as int);
            let q = table_position(*schema, t as int, a as int);
            assert(crate::schema::is_first_position(chain, a, q));
            if q < p as int {
                assert(chain[q] != a);
            } else if q > p as int {
                assert(chain[p as int] != a);
            }
        }
    }
    r
}

impl TableBuilder {
    /// Returns a new builder of table `t`: a new bundle for each of its
    /// ancestors, root first, and for the table itself.
    pub fn new(schema: &Schema, t: usize) -> (r: TableBuilder)
        requires
            schema.wf(),
            schema.has_table(t as int),
        ensures
            r@.table == t,
            builder_wf(*schema, r@),
            forall|i: int|
                #![trigger r@.bundles[i]]
                0 <= i < r@.bundles.len() ==> {
                    &&& r@.bundles[i].model.slots == crate::model::default_slots(
                        *schema,
                        schema.chain(t as int)[i] as int,
                    )
                    &&& forall|k: int| 0 <= k < r@.bundles[i].mandatory.len() ==> r@.bundles[i].mandatory[k] is None
                    &&& forall|k: int|
                        0 <= k < r@.bundles[i].discretionary.len() ==> r@.bundles[i].discretionary[k] is None
                },
    {
        let ghost chain = schema.chain(t as int);
        let anc = &schema.tables[t].ancestors;
        let mut bundles: Vec<TableBuilderBundle> = Vec::new();
        let mut i: usize = 0;
        proof {
            assert(schema.table_wf(t as int));
        }
        while i < anc.len()
            invariant
                schema.wf(),
                schema.has_table(t as int),
                anc@ == schema.tables@[t as int].ancestors@,
                chain == anc@.push(t),
                i <= anc@.len(),
                bundles@.len() == i,
                forall|j: int|
                    #![trigger bundles@[j]]
                    0 <= j < i ==> {
                        let bv = bundle_view(bundles@[j]);
                        &&& bundle_wf(*schema, chain[j] as int, bv)
                        &&& bv.model.slots == crate::model::default_slots(*schema, chain[j] as int)
                        &&& forall|k: int| 0 <= k < bv.mandatory.len() ==> bv.mandatory[k] is None
                        &&& forall|k: int| 0 <= k < bv.discretionary.len() ==> bv.discretionary[k] is None
                    },
            decreases anc.len() - i,
        {
            let a = anc[i];
            proof {
                assert(schema.table_wf(t as int));
                assert(0 <= anc@[i as int] < t);
                assert(chain[i as int] == a);
            }
            let bundle = TableBuilderBundle::new(schema, a);
            bundles.push(bundle);
            i += 1;
        }
        proof {
            assert(chain[i as int] == t);
        }
        bundles.push(TableBuilderBundle::new(schema, t));
        let r = TableBuilder { table: t, bundles };
        proof {
            assert forall|i: int| 0 <= i < r@.bundles.len() implies bundle_wf(
                *schema,
                schema.chain(r@.table)[i] as int,
                #[trigger] r@.bundles[i],
            ) by {
                assert(r@.bundles[i] == bundle_view(bundles@[i]));
            }
        }
        r
    }

    /// Returns the table of the builder.
    pub fn table(&self) -> (r: usize)
        ensures
            r as int == self@.table,
    {
        self.table
    }

    /// Returns the slot of column `c` of table `a`, an ancestor of the
    /// builder's table or the table itself: the value set, or `None`.
    pub fn may_get_column(&self, schema: &Schema, a: usize, c: usize) -> (r: Option<Option<Value>>)
        requires
            schema.wf(),
            builder_wf(*schema, self@),
            schema.chain(self@.table).contains(a),
            schema.has_column(a as int, c as int),
        ensures
            r == self@.bundles[table_position(*schema, self@.table, a as int)].model.slots[c as int],
    {
        let i = find_position(schema, self.table, a).unwrap();
        proof {
            assert(bundle_wf(*schema, schema.chain(self@.table)[i as int] as int, self@.bundles[i as int]));
            assert(self@.bundles[i as int] == bundle_view(self.bundles@[i as int]));
        }
        self.bundles[i].insertable_model.may_get_column(c)
    }

    /// Sets column `c` of table `a`, an ancestor of the builder's table or
    /// the table itself, to `v`, in the bundle of `a`: the value is
    /// validated, then passed on to the associated builders, and stored.
    pub fn try_set_column(&mut self, schema: &Schema, a: usize, c: usize, v: Option<Value>) -> (r: Result<(), ValidationError>)
        requires
            schema.wf(),
            builder_wf(*schema, old(self)@),
            schema.chain(old(self)@.table).contains(a),
            schema.has_column(a as int, c as int),
            fits(schema.column(a as int, c as int), v),
        ensures
            final(self)@ == builder_try_set(
                *schema,
                old(self)@,
                table_position(*schema, old(self)@.table, a as int),
                c as int,
                v,
            ).0,
            err_of(r) == builder_try_set(
                *schema,
                old(self)@,
                table_position(*schema, old(self)@.table, a as int),
                c as int,
                v,
            ).1,
            builder_wf(*schema, final(self)@),
    {
        let i = find_position(schema, self.table, a).unwrap();
        let mut tmp = TableBuilder { table: 0, bundles: Vec::new() };
        std::mem::swap(&mut tmp, self);
        let (nb, r) = builder_try_set_owned(schema, tmp, i, c, v);
        *self = nb;
        r
    }

    /// Sets column `c` of table `a` to `v`, a value every column involved
    /// accepts.
    pub fn set_column(&mut self, schema: &Schema, a: usize, c: usize, v: Option<Value>)
        requires
            schema.wf(),
            builder_wf(*schema, old(self)@),
            schema.chain(old(self)@.table).contains(a),
            schema.has_column(a as int, c as int),
            fits(schema.column(a as int, c as int), v),
            builder_try_set(
                *schema,
                old(self)@,
                table_position(*schema, old(self)@.table, a as int),
                c as int,
                v,
            ).1 is None,
        ensures
            final(self)@ == builder_try_set(
                *schema,
                old(self)@,
                table_position(*schema, old(self)@.table, a as int),
                c as int,
                v,
            ).0,
            builder_wf(*schema, final(self)@),
    {
        let _ = self.try_set_column(schema, a, c, v);
    }
}

} // verus!

verus! {

/// The associated builders of a well-formed bundle are well-formed slots of
/// their keys.
proof fn lemma_bundle_slots(s: Schema, b: TableBuilderBundle)
    requires
        s.wf(),
        bundle_wf(s, b@.model.table, b@),
    ensures
        slots_wf(
            s,
            b@.model.table,
            s.tables@[b@.model.table].discretionary_keys@,
            b.nested_discretionary_associated_builders@,
        ),
        slots_wf(s, b@.model.table, s.tables@[b@.model.table].mandatory_keys@, b.nested_mandatory_associated_builders@),
        slots_view(b.nested_discretionary_associated_builders@) == b@.discretionary,
        slots_view(b.nested_mandatory_associated_builders@) == b@.mandatory,
        s.has_table(b@.model.table),
{
    let t = b@.model.table;
    assert(s.has_table(t));
    assert(s.table_wf(t));
    let td = s.tables@[t];
    assert(slots_view(b.nested_discretionary_associated_builders@) =~= b@.discretionary);
    assert(slots_view(b.nested_mandatory_associated_builders@) =~= b@.mandatory);
    assert forall|k: int|
        #![trigger b.nested_discretionary_associated_builders@[k]]
        0 <= k < b.nested_discretionary_associated_builders@.len() implies s.key_wf(t, td.discretionary_keys@[k])
        && slot_wf(s, td.discretionary_keys@[k], opt_builder_view(b.nested_discretionary_associated_builders@[k])) by {
        assert(b@.discretionary[k] == opt_builder_view(b.nested_discretionary_associated_builders@[k]));
    }
    assert forall|k: int|
        #![trigger b.nested_mandatory_associated_builders@[k]]
        0 <= k < b.nested_mandatory_associated_builders@.len() implies s.key_wf(t, td.mandatory_keys@[k])
        && slot_wf(s, td.mandatory_keys@[k], opt_builder_view(b.nested_mandatory_associated_builders@[k])) by {
        assert(b@.mandatory[k] == opt_builder_view(b.nested_mandatory_associated_builders@[k]));
    }
}

/// Passing a value of a host column on to the builders of the
/// discretionary keys.
pub trait TrySetDiscretionarySameAsNestedColumns: View<V = BundleView> {
    /// Passes value `v` of column `c`, when it is not `NULL`, on to the
    /// builders of the discretionary keys that host `c`, first to last,
    /// stopping at the first refused value; nothing else changes.
    fn try_set_discretionary_same_as_nested_columns(&mut self, schema: &Schema, c: usize, v: Option<Value>) -> (r:
        Result<(), ValidationError>)
        requires
            schema.wf(),
            bundle_wf(*schema, old(self)@.model.table, old(self)@),
            schema.has_column(old(self)@.model.table, c as int),
            fits(schema.column(old(self)@.model.table, c as int), v),
        ensures
            final(self)@ == (BundleView {
                discretionary: discretionary_try_set(
                    *schema,
                    old(self)@.discretionary,
                    schema.tables@[old(self)@.model.table].discretionary_keys@,
                    c as int,
                    v, false,
                ).0,
                ..old(self)@
            }),
            err_of(r) == discretionary_try_set(
                *schema,
                old(self)@.discretionary,
                schema.tables@[old(self)@.model.table].discretionary_keys@,
                c as int,
                v, false,
            ).1,
            bundle_wf(*schema, old(self)@.model.table, final(self)@),
    ;
}

impl TrySetDiscretionarySameAsNestedColumns for TableBuilderBundle {
    fn try_set_discretionary_same_as_nested_columns(&mut self, schema: &Schema, c: usize, v: Option<Value>) -> (r:
        Result<(), ValidationError>) {
        proof {
            lemma_bundle_slots(*schema, *self);
        }
        let ghost before = self@;
        let t = self.insertable_model.table;
        let mut disc: Vec<Option<TableBuilder>> = Vec::new();
        std::mem::swap(&mut disc, &mut self.nested_discretionary_associated_builders);
        let (disc2, r) = discretionary_try_set_owned(
            schema,
            disc,
            &schema.tables[t].discretionary_keys,
            t,
            c,
            v, false,
        );
        self.nested_discretionary_associated_builders = disc2;
        proof {
            assert(self@.discretionary =~= slots_view(disc2@));
            assert(self@.mandatory =~= before.mandatory);
            assert forall|k: int| 0 <= k < self@.discretionary.len() implies slot_wf(
                *schema,
                schema.tables@[t as int].discretionary_keys@[k],
                #[trigger] self@.discretionary[k],
            ) by {
                assert(self@.discretionary[k] == opt_builder_view(disc2@[k]));
            }
        }
        r
    }
}

/// Passing a value of a host column on to the builders of the
/// discretionary keys, which accept it.
pub trait SetDiscretionarySameAsNestedColumns: TrySetDiscretionarySameAsNestedColumns {
    /// Passes value `v` of column `c`, when it is not `NULL`, on to the
    /// builders of the discretionary keys that host `c`.
    fn set_discretionary_same_as_nested_columns(&mut self, schema: &Schema, c: usize, v: Option<Value>)
        requires
            schema.wf(),
            bundle_wf(*schema, old(self)@.model.table, old(self)@),
            schema.has_column(old(self)@.model.table, c as int),
            fits(schema.column(old(self)@.model.table, c as int), v),
            discretionary_try_set(
                *schema,
                old(self)@.discretionary,
                schema.tables@[old(self)@.model.table].discretionary_keys@,
                c as int,
                v, false,
            ).1 is None,
        ensures
            final(self)@ == (BundleView {
                discretionary: discretionary_try_set(
                    *schema,
                    old(self)@.discretionary,
                    schema.tables@[old(self)@.model.table].discretionary_keys@,
                    c as int,
                    v, false,
                ).0,
                ..old(self)@
            }),
            bundle_wf(*schema, old(self)@.model.table, final(self)@),
    {
        let _ = self.try_set_discretionary_same_as_nested_columns(schema, c, v);
    }
}

impl SetDiscretionarySameAsNestedColumns for TableBuilderBundle {}

/// Passing a value of a host column on to the builders of the mandatory
/// keys.
pub trait TrySetMandatorySameAsNestedColumns: View<V = BundleView> {
    /// Passes value `v` of column `c`, when it is not `NULL`, on to the
    /// builders of the mandatory keys that host `c`, last to first, stopping
    /// at the first refused value; nothing else changes.
    fn try_set_mandatory_same_as_nested_columns(&mut self, schema: &Schema, c: usize, v: Option<Value>) -> (r: Result<
        (),
        ValidationError,
    >)
        requires
            schema.wf(),
            bundle_wf(*schema, old(self)@.model.table, old(self)@),
            schema.has_column(old(self)@.model.table, c as int),
            fits(schema.column(old(self)@.model.table, c as int), v),
        ensures
            final(self)@ == (BundleView {
                mandatory: mandatory_try_set(
                    *schema,
                    old(self)@.mandatory,
                    schema.tables@[old(self)@.model.table].mandatory_keys@,
                    c as int,
                    v, false,
                ).0,
                ..old(self)@
            }),
            err_of(r) == mandatory_try_set(
                *schema,
                old(self)@.mandatory,
                schema.tables@[old(self)@.model.table].mandatory_keys@,
                c as int,
                v, false,
            ).1,
            bundle_wf(*schema, old(self)@.model.table, final(self)@),
    ;
}

impl TrySetMandatorySameAsNestedColumns for TableBuilderBundle {
    fn try_set_mandatory_same_as_nested_columns(&mut self, schema: &Schema, c: usize, v: Option<Value>) -> (r: Result<
        (),
        ValidationError,
    >) {
        proof {
            lemma_bundle_slots(*schema, *self);
        }
        let ghost before = self@;
        let t = self.insertable_model.table;
        let mut mand: Vec<Option<TableBuilder>> = Vec::new();
        std::mem::swap(&mut mand, &mut self.nested_mandatory_associated_builders);
        let (mand2, r) = mandatory_try_set_owned(schema, mand, &schema.tables[t].mandatory_keys, t, c, v, false);
        self.nested_mandatory_associated_builders = mand2;
        proof {
            assert(self@.mandatory =~= slots_view(mand2@));
            assert(self@.discretionary =~= before.discretionary);
            assert forall|k: int| 0 <= k < self@.mandatory.len() implies slot_wf(
                *schema,
                schema.tables@[t as int].mandatory_keys@[k],
                #[trigger] self@.mandatory[k],
            ) by {
                assert(self@.mandatory[k] == opt_builder_view(mand2@[k]));
            }
        }
        r
    }
}

/// Passing a value of a host column on to the builders of the mandatory
/// keys, which accept it.
pub trait SetMandatorySameAsNestedColumns: TrySetMandatorySameAsNestedColumns {
    /// Passes value `v` of column `c`, when it is not `NULL`, on to the
    /// builders of the mandatory keys that host `c`.
    fn set_mandatory_same_as_nested_columns(&mut self, schema: &Schema, c: usize, v: Option<Value>)
        requires
            schema.wf(),
            bundle_wf(*schema, old(self)@.model.table, old(self)@),
            schema.has_column(old(self)@.model.table, c as int),
            fits(schema.column(old(self)@.model.table, c as int), v),
            mandatory_try_set(
                *schema,
                old(self)@.mandatory,
                schema.tables@[old(self)@.model.table].mandatory_keys@,
                c as int,
                v, false,
            ).1 is None,
        ensures
            final(self)@ == (BundleView {
                mandatory: mandatory_try_set(
                    *schema,
                    old(self)@.mandatory,
                    schema.tables@[old(self)@.model.table].mandatory_keys@,
                    c as int,
                    v, false,
                ).0,
                ..old(self)@
            }),
            bundle_wf(*schema, old(self)@.model.table, final(self)@),
    {
        let _ = self.try_set_mandatory_same_as_nested_columns(schema, c, v);
    }
}

impl SetMandatorySameAsNestedColumns for TableBuilderBundle {}

} // verus!

verus! {

/// Returns whether insertable values `nv` are well-formed values of table
/// `t`.
fn values_conform(schema: &Schema, t: usize, nv: &InsertableModel) -> (r: bool)
    ensures
        r == (nv@.table == t && new_values_wf(*schema, nv@)),
{
    nv.table == t && nv.conforms(schema)
}

/// Returns whether `slot` is a well-formed slot of key `key`.
fn slot_conforms(schema: &Schema, key: &HorizontalKeyDef, slot: &Option<TableBuilder>) -> (r: bool)
    requires
        schema.wf(),
    ensures
        r == slot_wf(*schema, *key, opt_builder_view(*slot)),
    decreases *slot,
{
    match slot {
        Some(nb) => {
            if nb.table != key.referenced_table {
                return false;
            }
            builder_conforms(schema, nb)
        },
        None => true,
    }
}

/// Returns whether `slots` are well-formed slots of `keys`, one per key.
fn slots_conform(schema: &Schema, keys: &Vec<HorizontalKeyDef>, slots: &Vec<Option<TableBuilder>>) -> (r: bool)
    requires
        schema.wf(),
    ensures
        r == (slots@.len() == keys@.len() && forall|k: int|
            #![trigger slots@[k]]
            0 <= k < slots@.len() ==> slot_wf(*schema, keys@[k], opt_builder_view(slots@[k]))),
    decreases *slots,
{
    if slots.len() != keys.len() {
        return false;
    }
    let mut k: usize = 0;
    while k < slots.len()
        invariant
            k <= slots@.len(),
            slots@.len() == keys@.len(),
            schema.wf(),
            forall|i: int|
                #![trigger slots@[i]]
                0 <= i < k ==> slot_wf(*schema, keys@[i], opt_builder_view(slots@[i])),
        decreases slots.len() - k,
    {
        proof {
            assert(decreases_to!(*slots => slots@));
            assert(decreases_to!(slots@ => slots@[k as int]));
        }
        if !slot_conforms(schema, &keys[k], &slots[k]) {
            return false;
        }
        k += 1;
    }
    true
}

/// Returns whether `b` is a well-formed bundle of table `t`.
fn bundle_conforms(schema: &Schema, t: usize, b: &TableBuilderBundle) -> (r: bool)
    requires
        schema.wf(),
        schema.has_table(t as int),
    ensures
        r == bundle_wf(*schema, t as int, b@),
    decreases *b,
{
    if !values_conform(schema, t, &b.insertable_model) {
        return false;
    }
    proof {
        assert(decreases_to!(*b => b.nested_mandatory_associated_builders));
        assert(decreases_to!(*b => b.nested_discretionary_associated_builders));
        assert(slots_view(b.nested_mandatory_associated_builders@) =~= b@.mandatory);
        assert(slots_view(b.nested_discretionary_associated_builders@) =~= b@.discretionary);
    }
    let m = slots_conform(schema, &schema.tables[t].mandatory_keys, &b.nested_mandatory_associated_builders);
    if !m {
        proof {
            if b@.mandatory.len() == schema.tables@[t as int].mandatory_keys@.len() {
                let k = choose|k: int|
                    0 <= k < b.nested_mandatory_associated_builders@.len() && !slot_wf(
                        *schema,
                        schema.tables@[t as int].mandatory_keys@[k],
                        opt_builder_view(#[trigger] b.nested_mandatory_associated_builders@[k]),
                    );
                assert(b@.mandatory[k] == opt_builder_view(b.nested_mandatory_associated_builders@[k]));
            }
        }
        return false;
    }
    let d = slots_conform(schema, &schema.tables[t].discretionary_keys, &b.nested_discretionary_associated_builders);
    if !d {
        proof {
            if b@.discretionary.len() == schema.tables@[t as int].discretionary_keys@.len() {
                let k = choose|k: int|
                    0 <= k < b.nested_discretionary_associated_builders@.len() && !slot_wf(
                        *schema,
                        schema.tables@[t as int].discretionary_keys@[k],
                        opt_builder_view(#[trigger] b.nested_discretionary_associated_builders@[k]),
                    );
                assert(b@.discretionary[k] == opt_builder_view(b.nested_discretionary_associated_builders@[k]));
            }
        }
        return false;
    }
    proof {
        assert forall|k: int| 0 <= k < b@.mandatory.len() implies slot_wf(
            *schema,
            schema.tables@[t as int].mandatory_keys@[k],
            #[trigger] b@.mandatory[k],
        ) by {
            assert(b@.mandatory[k] == opt_builder_view(b.nested_mandatory_associated_builders@[k]));
        }
        assert forall|k: int| 0 <= k < b@.discretionary.len() implies slot_wf(
            *schema,
            schema.tables@[t as int].discretionary_keys@[k],
            #[trigger] b@.discretionary[k],
        ) by {
            assert(b@.discretionary[k] == opt_builder_view(b.nested_discretionary_associated_builders@[k]));
        }
    }
    true
}

/// Returns whether `b` is a well-formed builder.
fn builder_conforms(schema: &Schema, b: &TableBuilder) -> (r: bool)
    requires
        schema.wf(),
    ensures
        r == builder_wf(*schema, b@),
    decreases *b,
{
    let t = b.table;
    if t >= schema.tables.len() {
        return false;
    }
    let chain = schema.ancestors_with_self(t);
    if b.bundles.len() != chain.len() {
        return false;
    }
    let mut i: usize = 0;
    while i < b.bundles.len()
        invariant
            i <= b.bundles@.len(),
            b.bundles@.len() == chain@.len(),
            chain@ == schema.chain(t as int),
            t == b.table,
            schema.wf(),
            schema.has_table(t as int),
            forall|j: int|
                #![trigger b@.bundles[j]]
                0 <= j < i ==> bundle_wf(*schema, chain@[j] as int, b@.bundles[j]),
        decreases b.bundles.len() - i,
    {
        proof {
            assert(decreases_to!(*b => b.bundles));
            assert(decreases_to!(b.bundles => b.bundles@));
            assert(decreases_to!(b.bundles@ => b.bundles@[i as int]));
            assert(schema.table_wf(t as int));
            if (i as int) < schema.tables@[t as int].ancestors@.len() {
                assert(0 <= schema.tables@[t as int].ancestors@[i as int] < t);
            }
        }
        let ok = bundle_conforms(schema, chain[i], &b.bundles[i]);
        assert(b@.bundles[i as int] == b.bundles@[i as int]@);
        if !ok {
            return false;
        }
        i += 1;
    }
    true
}

impl TableBuilder {
    /// Returns whether the builder is well formed: a table of the schema,
    /// one well-formed bundle per table of its chain, and well-formed
    /// associated builders.
    pub fn conforms(&self, schema: &Schema) -> (r: bool)
        requires
            schema.wf(),
        ensures
            r == builder_wf(*schema, self@),
    {
        builder_conforms(schema, self)
    }
}

} // verus!

verus! {

/// Returns a copy of insertable values `m`.
pub fn copy_insertable(m: &InsertableModel) -> (r: InsertableModel)
    ensures
        r@ == m@,
{
    let mut values: Vec<Option<Option<Value>>> = Vec::new();
    let mut i: usize = 0;
    while i < m.values.len()
        invariant
            i <= m.values@.len(),
            values@ == m.values@.take(i as int),
        decreases m.values.len() - i,
    {
        values.push(m.values[i]);
        assert(m.values@.take(i + 1) =~= m.values@.take(i as int).push(m.values@[i as int]));
        i += 1;
    }
    assert(m.values@.take(m.values@.len() as int) =~= m.values@);
    InsertableModel { table: m.table, values }
}

/// Returns a copy of builder `b`.
pub(crate) fn copy_builder(b: &TableBuilder) -> (r: TableBuilder)
    ensures
        r@ == b@,
    decreases b, 0int,
{
    let mut bundles: Vec<TableBuilderBundle> = Vec::new();
    let mut i: usize = 0;
    while i < b.bundles.len()
        invariant
            i <= b.bundles@.len(),
            bundles@.len() == i,
            forall|j: int| 0 <= j < i ==> bundle_view(#[trigger] bundles@[j]) == bundle_view(b.bundles@[j]),
        decreases b.bundles.len() - i,
    {
        proof {
            assert(decreases_to!(*b => b.bundles));
            assert(decreases_to!(b.bundles => b.bundles@));
            assert(decreases_to!(b.bundles@ => b.bundles@[i as int]));
        }
        let c = copy_bundle(&b.bundles[i]);
        bundles.push(c);
        i += 1;
    }
    let r = TableBuilder { table: b.table, bundles };
    proof {
        assert(builder_view(r).bundles =~= builder_view(*b).bundles);
    }
    r
}

/// Returns a copy of the optional builders `v`.
pub(crate) fn copy_slots(v: &Vec<Option<TableBuilder>>) -> (r: Vec<Option<TableBuilder>>)
    ensures
        r@.len() == v@.len(),
        forall|k: int| 0 <= k < v@.len() ==> opt_builder_view(#[trigger] r@[k]) == opt_builder_view(v@[k]),
    decreases v, 0int,
{
    let mut out: Vec<Option<TableBuilder>> = Vec::new();
    let mut k: usize = 0;
    while k < v.len()
        invariant
            k <= v@.len(),
            out@.len() == k,
            forall|j: int| 0 <= j < k ==> opt_builder_view(#[trigger] out@[j]) == opt_builder_view(v@[j]),
        decreases v.len() - k,
    {
        match &v[k] {
            Some(b) => {
                proof {
                    assert(decreases_to!(*v => v@));
                    assert(decreases_to!(v@ => v@[k as int]));
                    assert(decreases_to!(v@[k as int] => v@[k as int]->0));
                }
                let c = copy_builder(b);
                out.push(Some(c));
            },
            None => {
                out.push(None);
            },
        }
        k += 1;
    }
    out
}

/// Returns a copy of bundle `b`.
fn copy_bundle(b: &TableBuilderBundle) -> (r: TableBuilderBundle)
    ensures
        r@ == b@,
    decreases b, 1int,
{
    let insertable_model = copy_insertable(&b.insertable_model);
    proof {
        assert(decreases_to!(*b => b.nested_mandatory_associated_builders));
        assert(decreases_to!(*b => b.nested_discretionary_associated_builders));
    }
    let mandatory = copy_slots(&b.nested_mandatory_associated_builders);
    let discretionary = copy_slots(&b.nested_discretionary_associated_builders);
    let r = TableBuilderBundle {
        insertable_model,
        nested_mandatory_associated_builders: mandatory,
        nested_discretionary_associated_builders: discretionary,
    };
    proof {
        assert(bundle_view(r).mandatory =~= bundle_view(*b).mandatory);
        assert(bundle_view(r).discretionary =~= bundle_view(*b).discretionary);
    }
    r
}

impl Clone for TableBuilder {
    fn clone(&self) -> (r: Self)
        ensures
            r@ == self@,
    {
        copy_builder(self)
    }
}

impl Clone for TableBuilderBundle {
    fn clone(&self) -> (r: Self)
        ensures
            r@ == self@,
    {
        copy_bundle(self)
    }
}

} // verus!
