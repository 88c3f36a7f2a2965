//! Queries on table hierarchies: roots, ancestors, descendants, primary
//! keys, triangular same-as keys and column names.
use vstd::prelude::*;
use crate::schema::{Schema, HorizontalKeyDef, is_first_position, same_as_target};

verus! {

/// A collection of tables organised in inheritance hierarchies.
pub trait Hierarchy {
    /// Whether `t` names a table of a well-formed collection.
    spec fn valid_table(&self, t: int) -> bool;

    /// The ancestors of table `t`, root first.
    spec fn ancestors_of(&self, t: int) -> Seq<usize>;

    /// The primary key column of table `t`.
    spec fn primary_key_of(&self, t: int) -> int;

    /// The ancestors of table `t` followed by `t` itself.
    open spec fn chain_of(&self, t: int) -> Seq<usize> {
        self.ancestors_of(t).push(t as usize)
    }
}

impl Hierarchy for Schema {
    open spec fn valid_table(&self, t: int) -> bool {
        self.wf() && self.has_table(t)
    }

    open spec fn ancestors_of(&self, t: int) -> Seq<usize> {
        self.tables@[t].ancestors@
    }

    open spec fn primary_key_of(&self, t: int) -> int {
        self.tables@[t].primary_key as int
    }
}

/// Tables that have no ancestors.
pub trait Root: Hierarchy {
    /// Returns whether table `t` is the root of its hierarchy.
    fn is_root(&self, t: usize) -> (r: bool)
        requires
            self.valid_table(t as int),
        ensures
            r == (self.ancestors_of(t as int).len() == 0),
    ;
}

impl Root for Schema {
    fn is_root(&self, t: usize) -> (r: bool) {
        self.tables[t].ancestors.len() == 0
    }
}

/// Tables with ancestor tables, all sharing one root.
pub trait Descendant: Hierarchy {
    /// Returns the ancestors of table `t`, root first.
    fn ancestors(&self, t: usize) -> (r: &Vec<usize>)
        requires
            self.valid_table(t as int),
        ensures
            r@ == self.ancestors_of(t as int),
    ;

    /// Returns the root of the hierarchy of table `t`: its first ancestor,
    /// or `t` itself when it has none.
    fn root(&self, t: usize) -> (r: usize)
        requires
            self.valid_table(t as int),
        ensures
            r == (if self.ancestors_of(t as int).len() == 0 {
                t
            } else {
                self.ancestors_of(t as int)[0]
            }),
    ;
}

impl Descendant for Schema {
    fn ancestors(&self, t: usize) -> (r: &Vec<usize>) {
        &self.tables[t].ancestors
    }

    fn root(&self, t: usize) -> (r: usize) {
        if self.tables[t].ancestors.len() == 0 {
            t
        } else {
            self.tables[t].ancestors[0]
        }
    }
}

/// The descendant relation: a table descends from itself and from each of
/// its ancestors.
pub trait DescendantOf: Hierarchy {
    /// Returns whether table `t` descends from table `a`.
    fn is_descendant_of(&self, t: usize, a: usize) -> (r: bool)
        requires
            self.valid_table(t as int),
        ensures
            r == (t == a || self.ancestors_of(t as int).contains(a)),
    ;
}

impl DescendantOf for Schema {
    fn is_descendant_of(&self, t: usize, a: usize) -> (r: bool) {
        if t == a {
            return true;
        }
        let anc = &self.tables[t].ancestors;
        let mut i: usize = 0;
        while i < anc.len()
            invariant
                i <= anc@.len(),
                anc@ == self.ancestors_of(t as int),
                forall|j: int| 0 <= j < i ==> anc@[j] != a,
            decreases anc.len() - i,
        {
            if anc[i] == a {
                assert(anc@[i as int] == a);
                return true;
            }
            i += 1;
        }
        false
    }
}

/// The position of an ancestor among the ancestors of a table followed by
/// the table itself.
pub trait AncestorOfIndex: Hierarchy {
    /// Returns the position of table `a` in the ancestors of `t` followed by
    /// `t`, or `None` when `t` does not descend from `a`.
    fn ancestor_index(&self, t: usize, a: usize) -> (r: Option<usize>)
        requires
            self.valid_table(t as int),
        ensures
            match r {
                Some(i) => is_first_position(self.chain_of(t as int), a, i as int),
                None => !self.chain_of(t as int).contains(a),
            },
    ;
}

impl AncestorOfIndex for Schema {
    fn ancestor_index(&self, t: usize, a: usize) -> (r: Option<usize>) {
        let anc = &self.tables[t].ancestors;
        let ghost chain = self.chain_of(t as int);
        let mut i: usize = 0;
        while i < anc.len()
            invariant
                i <= anc@.len(),
                anc@ == self.ancestors_of(t as int),
                chain == anc@.push(t),
                forall|j: int| 0 <= j < i ==> chain[j] != a,
            decreases anc.len() - i,
        {
            if anc[i] == a {
                assert(chain[i as int] == a);
                return Some(i);
            }
            i += 1;
        }
        if t == a {
            Some(anc.len())
        } else {
            assert forall|j: int| 0 <= j < chain.len() implies chain[j] != a by {
                if j == anc@.len() {
                    assert(chain[j] == t);
                }
            }
            None
        }
    }
}

/// The ancestors of a table followed by the table itself.
pub trait DescendantWithSelf: Hierarchy {
    /// Returns the ancestors of table `t` followed by `t`.
    fn ancestors_with_self(&self, t: usize) -> (r: Vec<usize>)
        requires
            self.valid_table(t as int),
        ensures
            r@ == self.chain_of(t as int),
    ;
}

impl DescendantWithSelf for Schema {
    fn ancestors_with_self(&self, t: usize) -> (r: Vec<usize>) {
        let anc = &self.tables[t].ancestors;
        let mut out: Vec<usize> = Vec::new();
        let mut i: usize = 0;
        while i < anc.len()
            invariant
                i <= anc@.len(),
                out@ == anc@.take(i as int),
            decreases anc.len() - i,
        {
            out.push(anc[i]);
            assert(anc@.take(i + 1) == anc@.take(i as int).push(anc@[i as int]));
            i += 1;
        }
        assert(anc@.take(anc@.len() as int) == anc@);
        out.push(t);
        out
    }
}

/// Tables with a non-composite primary key.
pub trait HasPrimaryKeyColumn: Hierarchy {
    /// Returns the primary key column of table `t`.
    fn primary_key_column(&self, t: usize) -> (r: usize)
        requires
            self.valid_table(t as int),
        ensures
            r as int == self.primary_key_of(t as int),
    ;
}

impl HasPrimaryKeyColumn for Schema {
    fn primary_key_column(&self, t: usize) -> (r: usize) {
        self.tables[t].primary_key
    }
}

/// The key columns of a sequence of horizontal same-as keys.
pub open spec fn key_columns(keys: Seq<HorizontalKeyDef>) -> Seq<usize> {
    keys.map_values(|k: HorizontalKeyDef| k.key_column)
}

/// Returns the key columns of `keys`.
pub fn collect_key_columns(keys: &Vec<HorizontalKeyDef>) -> (r: Vec<usize>)
    ensures
        r@ == key_columns(keys@),
{
    let mut out: Vec<usize> = Vec::new();
    let mut i: usize = 0;
    while i < keys.len()
        invariant
            i <= keys@.len(),
            out@ == key_columns(keys@.take(i as int)),
        decreases keys.len() - i,
    {
        out.push(keys[i].key_column);
        assert(key_columns(keys@.take(i + 1)) == key_columns(keys@.take(i as int)).push(
            keys@[i as int].key_column,
        ));
        i += 1;
    }
    assert(keys@.take(keys@.len() as int) == keys@);
    out
}

/// Tables with mandatory and discretionary triangular same-as keys.
pub trait BundlableTable: Hierarchy {
    /// The mandatory triangular same-as keys of table `t`.
    spec fn mandatory_keys_of(&self, t: int) -> Seq<HorizontalKeyDef>;

    /// The discretionary triangular same-as keys of table `t`.
    spec fn discretionary_keys_of(&self, t: int) -> Seq<HorizontalKeyDef>;

    /// Returns the key columns of the mandatory triangular same-as keys.
    fn mandatory_triangular_columns(&self, t: usize) -> (r: Vec<usize>)
        requires
            self.valid_table(t as int),
        ensures
            r@ == key_columns(self.mandatory_keys_of(t as int)),
    ;

    /// Returns the key columns of the discretionary triangular same-as keys.
    fn discretionary_triangular_columns(&self, t: usize) -> (r: Vec<usize>)
        requires
            self.valid_table(t as int),
        ensures
            r@ == key_columns(self.discretionary_keys_of(t as int)),
    ;
}

impl BundlableTable for Schema {
    open spec fn mandatory_keys_of(&self, t: int) -> Seq<HorizontalKeyDef> {
        self.tables@[t].mandatory_keys@
    }

    open spec fn discretionary_keys_of(&self, t: int) -> Seq<HorizontalKeyDef> {
        self.tables@[t].discretionary_keys@
    }

    fn mandatory_triangular_columns(&self, t: usize) -> (r: Vec<usize>) {
        collect_key_columns(&self.tables[t].mandatory_keys)
    }

    fn discretionary_triangular_columns(&self, t: usize) -> (r: Vec<usize>) {
        collect_key_columns(&self.tables[t].discretionary_keys)
    }
}

/// The referenced-table columns that share their value with host column
/// `c`, one entry per key.
pub open spec fn same_as_targets(keys: Seq<HorizontalKeyDef>, c: usize) -> Seq<Option<usize>> {
    keys.map_values(|k: HorizontalKeyDef| same_as_target(k, c))
}

/// Returns, for each key, the referenced-table column that shares its value
/// with host column `c`.
pub fn collect_same_as_targets(keys: &Vec<HorizontalKeyDef>, c: usize) -> (r: Vec<Option<usize>>)
    requires
        forall|k: int|
            0 <= k < keys@.len() ==> (#[trigger] keys@[k]).host_columns@.len()
                == keys@[k].foreign_columns@.len(),
    ensures
        r@ == same_as_targets(keys@, c),
{
    let mut out: Vec<Option<usize>> = Vec::new();
    let mut i: usize = 0;
    while i < keys.len()
        invariant
            i <= keys@.len(),
            forall|k: int|
                0 <= k < keys@.len() ==> (#[trigger] keys@[k]).host_columns@.len()
                    == keys@[k].foreign_columns@.len(),
            out@ == same_as_targets(keys@.take(i as int), c),
        decreases keys.len() - i,
    {
        let target = keys[i].target_of(c);
        out.push(target);
        assert(same_as_targets(keys@.take(i + 1), c) == same_as_targets(keys@.take(i as int), c).push(
            same_as_target(keys@[i as int], c),
        ));
        i += 1;
    }
    assert(keys@.take(keys@.len() as int) == keys@);
    out
}

/// Columns that share their values with columns of referenced tables
/// through horizontal same-as keys.
pub trait HorizontalSameAsGroup: BundlableTable {
    /// Returns, for each mandatory key of table `t`, the referenced-table
    /// column that shares its value with column `c`.
    fn mandatory_same_as_targets(&self, t: usize, c: usize) -> (r: Vec<Option<usize>>)
        requires
            self.valid_table(t as int),
        ensures
            r@ == same_as_targets(self.mandatory_keys_of(t as int), c),
    ;

    /// Returns, for each discretionary key of table `t`, the
    /// referenced-table column that shares its value with column `c`.
    fn discretionary_same_as_targets(&self, t: usize, c: usize) -> (r: Vec<Option<usize>>)
        requires
            self.valid_table(t as int),
        ensures
            r@ == same_as_targets(self.discretionary_keys_of(t as int), c),
    ;
}

impl HorizontalSameAsGroup for Schema {
    fn mandatory_same_as_targets(&self, t: usize, c: usize) -> (r: Vec<Option<usize>>) {
        proof {
            assert(self.table_wf(t as int));
            assert forall|k: int| 0 <= k < self.tables@[t as int].mandatory_keys@.len() implies
                (#[trigger] self.tables@[t as int].mandatory_keys@[k]).host_columns@.len()
                    == self.tables@[t as int].mandatory_keys@[k].foreign_columns@.len() by {
                assert(self.key_wf(t as int, self.tables@[t as int].mandatory_keys@[k]));
            }
        }
        collect_same_as_targets(&self.tables[t].mandatory_keys, c)
    }

    fn discretionary_same_as_targets(&self, t: usize, c: usize) -> (r: Vec<Option<usize>>) {
        proof {
            assert(self.table_wf(t as int));
            assert forall|k: int| 0 <= k < self.tables@[t as int].discretionary_keys@.len() implies
                (#[trigger] self.tables@[t as int].discretionary_keys@[k]).host_columns@.len()
                    == self.tables@[t as int].discretionary_keys@[k].foreign_columns@.len() by {
                assert(self.key_wf(t as int, self.tables@[t as int].discretionary_keys@[k]));
            }
        }
        collect_same_as_targets(&self.tables[t].discretionary_keys, c)
    }
}

/// The referenced table and column of each key of `keys` that hosts column
/// `c`, in key order; keys that do not host `c` are left out.
pub open spec fn group_foreign_columns(keys: Seq<HorizontalKeyDef>, c: usize) -> Seq<(usize, usize)>
    decreases keys.len(),
{
    if keys.len() == 0 {
        Seq::empty()
    } else {
        let before = group_foreign_columns(keys.drop_last(), c);
        match same_as_target(keys.last(), c) {
            Some(f) => before.push((keys.last().referenced_table, f)),
            None => before,
        }
    }
}

/// Returns the referenced table and column of each key of `keys` that hosts
/// column `c`, in key order.
fn collect_group_foreign_columns(keys: &Vec<HorizontalKeyDef>, c: usize) -> (r: Vec<(usize, usize)>)
    requires
        forall|k: int|
            0 <= k < keys@.len() ==> (#[trigger] keys@[k]).host_columns@.len()
                == keys@[k].foreign_columns@.len(),
    ensures
        r@ == group_foreign_columns(keys@, c),
{
    let mut out: Vec<(usize, usize)> = Vec::new();
    let mut i: usize = 0;
    while i < keys.len()
        invariant
            i <= keys@.len(),
            forall|k: int|
                0 <= k < keys@.len() ==> (#[trigger] keys@[k]).host_columns@.len()
                    == keys@[k].foreign_columns@.len(),
            out@ == group_foreign_columns(keys@.take(i as int), c),
        decreases keys.len() - i,
    {
        let ghost next = keys@.take(i + 1);
        assert(next.drop_last() =~= keys@.take(i as int));
        assert(next.last() == keys@[i as int]);
        match keys[i].target_of(c) {
            Some(f) => {
                out.push((keys[i].referenced_table, f));
            },
            None => {},
        }
        i += 1;
    }
    assert(keys@.take(keys@.len() as int) =~= keys@);
    out
}

/// The columns of referenced tables that share their values with a column
/// through the horizontal same-as keys hosting it.
pub trait HorizontalSameAsGroupExt: HorizontalSameAsGroup {
    /// Returns the referenced table and column of each mandatory key of
    /// table `t` that hosts column `c`, in key order.
    fn mandatory_foreign_columns(&self, t: usize, c: usize) -> (r: Vec<(usize, usize)>)
        requires
            self.valid_table(t as int),
        ensures
            r@ == group_foreign_columns(self.mandatory_keys_of(t as int), c),
    ;

    /// Returns the referenced table and column of each discretionary key of
    /// table `t` that hosts column `c`, in key order.
    fn discretionary_foreign_columns(&self, t: usize, c: usize) -> (r: Vec<(usize, usize)>)
        requires
            self.valid_table(t as int),
        ensures
            r@ == group_foreign_columns(self.discretionary_keys_of(t as int), c),
    ;
}

impl HorizontalSameAsGroupExt for Schema {
    fn mandatory_foreign_columns(&self, t: usize, c: usize) -> (r: Vec<(usize, usize)>) {
        proof {
            assert(self.table_wf(t as int));
            assert forall|k: int| 0 <= k < self.tables@[t as int].mandatory_keys@.len() implies
                (#[trigger] self.tables@[t as int].mandatory_keys@[k]).host_columns@.len()
                    == self.tables@[t as int].mandatory_keys@[k].foreign_columns@.len() by {
                assert(self.key_wf(t as int, self.tables@[t as int].mandatory_keys@[k]));
            }
        }
        collect_group_foreign_columns(&self.tables[t].mandatory_keys, c)
    }

    fn discretionary_foreign_columns(&self, t: usize, c: usize) -> (r: Vec<(usize, usize)>) {
        proof {
            assert(self.table_wf(t as int));
            assert forall|k: int| 0 <= k < self.tables@[t as int].discretionary_keys@.len() implies
                (#[trigger] self.tables@[t as int].discretionary_keys@[k]).host_columns@.len()
                    == self.tables@[t as int].discretionary_keys@[k].foreign_columns@.len() by {
                assert(self.key_wf(t as int, self.tables@[t as int].discretionary_keys@[k]));
            }
        }
        collect_group_foreign_columns(&self.tables[t].discretionary_keys, c)
    }
}

} // verus!
