//! Relations between tables and columns: key positions, primary keys,
//! ancestor columns, host columns and foreign primary keys.
use vstd::prelude::*;
use crate::schema::{Schema, ForeignKeyDef, is_first_position, first_position, same_columns};
use crate::hierarchy::{Hierarchy, BundlableTable, AncestorOfIndex, key_columns, collect_key_columns};
use crate::schema::HorizontalKeyDef;

verus! {

/// The position of a mandatory key among the mandatory keys of its table.
pub trait MandatorySameAsIndex: BundlableTable {
    /// Returns the position of the first mandatory key of table `t` whose
    /// key column is `c`, if there is one.
    fn mandatory_same_as_index(&self, t: usize, c: usize) -> (r: Option<usize>)
        requires
            self.valid_table(t as int),
        ensures
            match r {
                Some(i) => is_first_position(key_columns(self.mandatory_keys_of(t as int)), c, i as int),
                None => !key_columns(self.mandatory_keys_of(t as int)).contains(c),
            },
    ;
}

impl MandatorySameAsIndex for Schema {
    fn mandatory_same_as_index(&self, t: usize, c: usize) -> (r: Option<usize>) {
        let cols = collect_key_columns(&self.tables[t].mandatory_keys);
        first_position(&cols, c)
    }
}

/// The position of a discretionary key among the discretionary keys of its
/// table.
pub trait DiscretionarySameAsIndex: BundlableTable {
    /// Returns the position of the first discretionary key of table `t`
    /// whose key column is `c`, if there is one.
    fn discretionary_same_as_index(&self, t: usize, c: usize) -> (r: Option<usize>)
        requires
            self.valid_table(t as int),
        ensures
            match r {
                Some(i) => is_first_position(key_columns(self.discretionary_keys_of(t as int)), c, i as int),
                None => !key_columns(self.discretionary_keys_of(t as int)).contains(c),
            },
    ;
}

impl DiscretionarySameAsIndex for Schema {
    fn discretionary_same_as_index(&self, t: usize, c: usize) -> (r: Option<usize>) {
        let cols = collect_key_columns(&self.tables[t].discretionary_keys);
        first_position(&cols, c)
    }
}

/// Primary key columns.
pub trait PrimaryKeyColumn: Hierarchy {
    /// Returns whether column `c` is the primary key of table `t`.
    fn is_primary_key_column(&self, t: usize, c: usize) -> (r: bool)
        requires
            self.valid_table(t as int),
        ensures
            r == (c as int == self.primary_key_of(t as int)),
    ;
}

impl PrimaryKeyColumn for Schema {
    fn is_primary_key_column(&self, t: usize, c: usize) -> (r: bool) {
        self.tables[t].primary_key == c
    }
}

/// Columns of the ancestors of a table, or of the table itself.
pub trait AncestorColumnOf: Hierarchy {
    /// Whether `c` is a column of table `a`.
    spec fn is_column(&self, a: int, c: int) -> bool;

    /// Returns whether column `c` of table `a` is a column of table `t` or
    /// of one of its ancestors.
    fn is_ancestor_column_of(&self, t: usize, a: usize, c: usize) -> (r: bool)
        requires
            self.valid_table(t as int),
        ensures
            r == (self.chain_of(t as int).contains(a) && self.is_column(a as int, c as int)),
    ;
}

impl AncestorColumnOf for Schema {
    open spec fn is_column(&self, a: int, c: int) -> bool {
        self.has_column(a, c)
    }

    fn is_ancestor_column_of(&self, t: usize, a: usize, c: usize) -> (r: bool) {
        let anc = &self.tables[t].ancestors;
        let ghost chain = self.chain_of(t as int);
        if a >= self.tables.len() || c >= self.tables[a].columns.len() {
            return false;
        }
        if a == t {
            assert(chain[anc@.len() as int] == a);
            return true;
        }
        let mut i: usize = 0;
        while i < anc.len()
            invariant
                i <= anc@.len(),
                anc@ == self.tables@[t as int].ancestors@,
                chain == anc@.push(t),
                a != t,
                self.has_column(a as int, c as int),
                forall|j: int| 0 <= j < i ==> anc@[j] != a,
            decreases anc.len() - i,
        {
            if anc[i] == a {
                assert(chain[i as int] == a);
                return true;
            }
            i += 1;
        }
        assert forall|j: int| 0 <= j < chain.len() implies chain[j] != a by {
            if j == anc@.len() {
                assert(chain[j] == t);
            }
        }
        false
    }
}

/// Nested collections of columns of the ancestors of a table, or of the
/// table itself, each column given by its table and its position.
pub trait NestedAncestorColumnsOf: AncestorColumnOf {
    /// Returns whether every column of `cols`, given by its table and its
    /// position, is a column of table `t` or of one of its ancestors.
    fn are_ancestor_columns_of(&self, t: usize, cols: &Vec<(usize, usize)>) -> (r: bool)
        requires
            self.valid_table(t as int),
        ensures
            r == forall|i: int|
                0 <= i < cols@.len() ==> self.chain_of(t as int).contains((#[trigger] cols@[i]).0) && self.is_column(
                    cols@[i].0 as int,
                    cols@[i].1 as int,
                ),
    {
        let mut i: usize = 0;
        while i < cols.len()
            invariant
                i <= cols@.len(),
                self.valid_table(t as int),
                forall|k: int|
                    0 <= k < i ==> self.chain_of(t as int).contains((#[trigger] cols@[k]).0) && self.is_column(
                        cols@[k].0 as int,
                        cols@[k].1 as int,
                    ),
            decreases cols.len() - i,
        {
            let (a, c) = cols[i];
            if !self.is_ancestor_column_of(t, a, c) {
                return false;
            }
            i += 1;
        }
        true
    }
}

impl NestedAncestorColumnsOf for Schema {}

/// Collections of columns of the ancestors of a table, or of the table
/// itself: those whose nested form is such a collection.
pub trait AncestorColumnsOf: NestedAncestorColumnsOf {}

impl AncestorColumnsOf for Schema {}

/// Whether foreign key `f` holds column `c` alone and references the
/// primary key of its table.
pub open spec fn is_foreign_primary_key(s: Schema, f: ForeignKeyDef, c: usize) -> bool {
    &&& f.host_columns@ == seq![c]
    &&& f.referenced_columns@ == seq![s.tables@[f.referenced_table as int].primary_key]
}

/// Whether `k` is the first foreign key of `fks` that makes column `c` a
/// foreign primary key.
pub open spec fn first_foreign_primary_key(s: Schema, fks: Seq<ForeignKeyDef>, c: usize, k: int) -> bool {
    &&& 0 <= k < fks.len()
    &&& is_foreign_primary_key(s, fks[k], c)
    &&& forall|j: int| 0 <= j < k ==> !is_foreign_primary_key(s, #[trigger] fks[j], c)
}

/// Columns that reference the primary key of another table on their own.
pub trait ForeignPrimaryKey {
    /// Returns the table whose primary key column `c` of table `t`
    /// references through the first foreign key holding `c` alone, if any.
    fn foreign_primary_key_table(&self, t: usize, c: usize) -> (r: Option<usize>)
        requires
            self.valid_fk_table(t as int),
        ensures
            match r {
                Some(rt) => exists|k: int|
                    #[trigger] first_foreign_primary_key(self.schema_of(), self.foreign_keys_of(t as int), c, k)
                        && self.foreign_keys_of(t as int)[k].referenced_table == rt,
                None => forall|k: int|
                    0 <= k < self.foreign_keys_of(t as int).len() ==> !is_foreign_primary_key(
                        self.schema_of(),
                        #[trigger] self.foreign_keys_of(t as int)[k],
                        c,
                    ),
            },
    ;

    /// Whether `t` names a table of a well-formed collection.
    spec fn valid_fk_table(&self, t: int) -> bool;

    /// The foreign keys of table `t`.
    spec fn foreign_keys_of(&self, t: int) -> Seq<ForeignKeyDef>;

    /// The tables.
    spec fn schema_of(&self) -> Schema;
}

impl ForeignPrimaryKey for Schema {
    open spec fn valid_fk_table(&self, t: int) -> bool {
        self.wf() && self.has_table(t)
    }

    open spec fn foreign_keys_of(&self, t: int) -> Seq<ForeignKeyDef> {
        self.tables@[t].foreign_keys@
    }

    open spec fn schema_of(&self) -> Schema {
        *self
    }

    fn foreign_primary_key_table(&self, t: usize, c: usize) -> (r: Option<usize>) {
        let fks = &self.tables[t].foreign_keys;
        assert(self.table_wf(t as int));
        let mut k: usize = 0;
        while k < fks.len()
            invariant
                k <= fks@.len(),
                fks@ == self.tables@[t as int].foreign_keys@,
                self.wf(),
                self.has_table(t as int),
                self.table_wf(t as int),
                forall|j: int| 0 <= j < k ==> !is_foreign_primary_key(*self, #[trigger] fks@[j], c),
            decreases fks.len() - k,
        {
            let f = &fks[k];
            assert(self.foreign_key_wf(t as int, fks@[k as int]));
            let r = f.referenced_table;
            if f.host_columns.len() == 1 && f.referenced_columns.len() == 1 && f.host_columns[0] == c
                && f.referenced_columns[0] == self.tables[r].primary_key {
                assert(f.host_columns@ =~= seq![c]);
                assert(f.referenced_columns@ =~= seq![self.tables@[r as int].primary_key]);
                assert(first_foreign_primary_key(*self, fks@, c, k as int));
                assert(self.schema_of() == *self);
                assert(self.foreign_keys_of(t as int) == fks@);
                assert(first_foreign_primary_key(self.schema_of(), self.foreign_keys_of(t as int), c, k as int));
                return Some(r);
            }
            assert(!is_foreign_primary_key(*self, fks@[k as int], c)) by {
                if f.host_columns@ == seq![c] && f.referenced_columns@ == seq![self.tables@[r as int].primary_key] {
                    assert(f.host_columns@[0] == c);
                    assert(f.referenced_columns@[0] == self.tables@[r as int].primary_key);
                }
            }
            k += 1;
        }
        None
    }
}

/// Host columns of foreign keys.
pub trait HostColumn: ForeignPrimaryKey {
    /// Returns whether column `c` of table `t` is a host column of one of
    /// its foreign keys.
    fn is_host_column(&self, t: usize, c: usize) -> (r: bool)
        requires
            self.valid_fk_table(t as int),
        ensures
            r == exists|k: int, j: int|
                0 <= k < self.foreign_keys_of(t as int).len() && 0 <= j < self.foreign_keys_of(
                    t as int,
                )[k].host_columns@.len() && #[trigger] self.foreign_keys_of(t as int)[k].host_columns@[j] == c,
    ;
}

impl HostColumn for Schema {
    fn is_host_column(&self, t: usize, c: usize) -> (r: bool) {
        let fks = &self.tables[t].foreign_keys;
        let mut k: usize = 0;
        while k < fks.len()
            invariant
                k <= fks@.len(),
                fks@ == self.tables@[t as int].foreign_keys@,
                forall|i: int, j: int|
                    0 <= i < k && 0 <= j < fks@[i].host_columns@.len() ==> #[trigger] fks@[i].host_columns@[j] != c,
            decreases fks.len() - k,
        {
            match first_position(&fks[k].host_columns, c) {
                Some(p) => {
                    assert(self.foreign_keys_of(t as int) == fks@);
                    assert(self.foreign_keys_of(t as int)[k as int].host_columns@[p as int] == c);
                    return true;
                },
                None => {},
            }
            k += 1;
        }
        false
    }
}

} // verus!

verus! {

/// Whether foreign key `f` has host columns `host` and references columns
/// `cols` of table `r`.
pub open spec fn is_foreign_key(f: ForeignKeyDef, host: Seq<usize>, r: usize, cols: Seq<usize>) -> bool {
    &&& f.host_columns@ == host
    &&& f.referenced_table == r
    &&& f.referenced_columns@ == cols
}

/// Foreign keys between tables.
pub trait ForeignKey: ForeignPrimaryKey {
    /// Returns whether table `t` has a foreign key whose host columns are
    /// `host` and which references columns `cols` of table `r`.
    fn has_foreign_key(&self, t: usize, host: &Vec<usize>, r: usize, cols: &Vec<usize>) -> (b: bool)
        requires
            self.valid_fk_table(t as int),
        ensures
            b == exists|k: int|
                0 <= k < self.foreign_keys_of(t as int).len() && is_foreign_key(
                    #[trigger] self.foreign_keys_of(t as int)[k],
                    host@,
                    r,
                    cols@,
                ),
    ;
}

impl ForeignKey for Schema {
    fn has_foreign_key(&self, t: usize, host: &Vec<usize>, r: usize, cols: &Vec<usize>) -> (b: bool) {
        let fks = &self.tables[t].foreign_keys;
        let mut k: usize = 0;
        while k < fks.len()
            invariant
                k <= fks@.len(),
                fks@ == self.tables@[t as int].foreign_keys@,
                forall|i: int| 0 <= i < k ==> !is_foreign_key(#[trigger] fks@[i], host@, r, cols@),
            decreases fks.len() - k,
        {
            let f = &fks[k];
            if f.referenced_table == r && same_columns(&f.host_columns, host) && same_columns(
                &f.referenced_columns,
                cols,
            ) {
                assert(self.foreign_keys_of(t as int)[k as int] == fks@[k as int]);
                return true;
            }
            k += 1;
        }
        assert(self.foreign_keys_of(t as int) == fks@);
        false
    }
}

/// The host and referenced columns of a horizontal same-as key.
pub trait HorizontalSameAsColumns: BundlableTable {
    /// Returns the host columns of key `k` of table `t`, mandatory or
    /// discretionary, and the columns of the referenced table they share
    /// their values with.
    fn same_as_columns(&self, t: usize, mandatory: bool, k: usize) -> (r: (&Vec<usize>, &Vec<usize>))
        requires
            self.valid_table(t as int),
            mandatory ==> k < self.mandatory_keys_of(t as int).len(),
            !mandatory ==> k < self.discretionary_keys_of(t as int).len(),
        ensures
            ({
                let key = if mandatory {
                    self.mandatory_keys_of(t as int)[k as int]
                } else {
                    self.discretionary_keys_of(t as int)[k as int]
                };
                r.0@ == key.host_columns@ && r.1@ == key.foreign_columns@
            }),
    ;
}

impl HorizontalSameAsColumns for Schema {
    fn same_as_columns(&self, t: usize, mandatory: bool, k: usize) -> (r: (&Vec<usize>, &Vec<usize>)) {
        let key = if mandatory {
            &self.tables[t].mandatory_keys[k]
        } else {
            &self.tables[t].discretionary_keys[k]
        };
        (&key.host_columns, &key.foreign_columns)
    }
}

/// The referenced tables and the host and referenced columns of keys
/// `keys`.
pub open spec fn keys_matrix(keys: Seq<HorizontalKeyDef>) -> (Seq<usize>, Seq<Seq<usize>>, Seq<Seq<usize>>) {
    (
        keys.map_values(|k: HorizontalKeyDef| k.referenced_table),
        keys.map_values(|k: HorizontalKeyDef| k.host_columns@),
        keys.map_values(|k: HorizontalKeyDef| k.foreign_columns@),
    )
}

/// Returns the referenced tables and the host and referenced columns of
/// keys `keys`.
fn collect_keys_matrix(keys: &Vec<HorizontalKeyDef>) -> (r: (Vec<usize>, Vec<Vec<usize>>, Vec<Vec<usize>>))
    ensures
        r.0@ == keys_matrix(keys@).0,
        r.1@.map_values(|v: Vec<usize>| v@) == keys_matrix(keys@).1,
        r.2@.map_values(|v: Vec<usize>| v@) == keys_matrix(keys@).2,
{
    let mut tables: Vec<usize> = Vec::new();
    let mut hosts: Vec<Vec<usize>> = Vec::new();
    let mut foreigns: Vec<Vec<usize>> = Vec::new();
    let mut i: usize = 0;
    while i < keys.len()
        invariant
            i <= keys@.len(),
            tables@ == keys_matrix(keys@.take(i as int)).0,
            hosts@.map_values(|v: Vec<usize>| v@) == keys_matrix(keys@.take(i as int)).1,
            foreigns@.map_values(|v: Vec<usize>| v@) == keys_matrix(keys@.take(i as int)).2,
        decreases keys.len() - i,
    {
        let key = &keys[i];
        let ghost (h0, f0) = (hosts@, foreigns@);
        tables.push(key.referenced_table);
        hosts.push(key.host_columns.clone());
        foreigns.push(key.foreign_columns.clone());
        let ghost next = keys@.take(i + 1);
        assert(next =~= keys@.take(i as int).push(keys@[i as int]));
        assert(keys_matrix(next).0 =~= keys_matrix(keys@.take(i as int)).0.push(key.referenced_table));
        assert(hosts@.map_values(|v: Vec<usize>| v@) =~= h0.map_values(|v: Vec<usize>| v@).push(
            key.host_columns@,
        ));
        assert(keys_matrix(next).1 =~= keys_matrix(keys@.take(i as int)).1.push(key.host_columns@));
        assert(foreigns@.map_values(|v: Vec<usize>| v@) =~= f0.map_values(|v: Vec<usize>| v@).push(
            key.foreign_columns@,
        ));
        assert(keys_matrix(next).2 =~= keys_matrix(keys@.take(i as int)).2.push(key.foreign_columns@));
        i += 1;
    }
    assert(keys@.take(keys@.len() as int) =~= keys@);
    (tables, hosts, foreigns)
}

/// The referenced tables and the matrices of host and referenced columns
/// of a table's keys.
pub trait HorizontalNestedKeys: BundlableTable {
    /// Returns, for the mandatory keys of table `t` (or its discretionary
    /// keys), the referenced tables, the host columns of each key and the
    /// referenced columns of each key.
    fn nested_keys(&self, t: usize, mandatory: bool) -> (r: (Vec<usize>, Vec<Vec<usize>>, Vec<Vec<usize>>))
        requires
            self.valid_table(t as int),
        ensures
            ({
                let keys = if mandatory {
                    self.mandatory_keys_of(t as int)
                } else {
                    self.discretionary_keys_of(t as int)
                };
                &&& r.0@ == keys_matrix(keys).0
                &&& r.1@.map_values(|v: Vec<usize>| v@) == keys_matrix(keys).1
                &&& r.2@.map_values(|v: Vec<usize>| v@) == keys_matrix(keys).2
            }),
    ;
}

impl HorizontalNestedKeys for Schema {
    fn nested_keys(&self, t: usize, mandatory: bool) -> (r: (Vec<usize>, Vec<Vec<usize>>, Vec<Vec<usize>>)) {
        if mandatory {
            collect_keys_matrix(&self.tables[t].mandatory_keys)
        } else {
            collect_keys_matrix(&self.tables[t].discretionary_keys)
        }
    }
}

/// Collections of ancestors of a table.
pub trait NestedAncestorsOf: AncestorOfIndex {
    /// Returns whether every table of `tables` is table `t` or one of its
    /// ancestors.
    fn are_ancestors_of(&self, t: usize, tables: &Vec<usize>) -> (r: bool)
        requires
            self.valid_table(t as int),
        ensures
            r == forall|i: int| 0 <= i < tables@.len() ==> self.chain_of(t as int).contains(#[trigger] tables@[i]),
    {
        let mut i: usize = 0;
        while i < tables.len()
            invariant
                i <= tables@.len(),
                self.valid_table(t as int),
                forall|k: int| 0 <= k < i ==> self.chain_of(t as int).contains(#[trigger] tables@[k]),
            decreases tables.len() - i,
        {
            match self.ancestor_index(t, tables[i]) {
                Some(p) => {
                    assert(self.chain_of(t as int)[p as int] == tables@[i as int]);
                },
                None => {
                    return false;
                },
            }
            i += 1;
        }
        true
    }
}

impl NestedAncestorsOf for Schema {}

} // verus!
