//! The runtime description of a table hierarchy: tables, columns, ancestors,
//! horizontal same-as keys and foreign keys, with their well-formedness.
use vstd::prelude::*;
use crate::value::{Value, ValueKind, kind_of};
use vstd::string::StrSliceExecFns;

verus! {

/// A validation rule attached to a column, checked on every non-null value
/// that a builder stores in it.
#[derive(Clone, Copy, Debug, PartialEq, Eq, Structural)]
pub enum ColumnCheck {
    /// Every value is accepted.
    Unchecked,
    /// Integer values must lie in `min..=max`.
    Range { min: i64, max: i64 },
    /// Integer values must be at least `min`.
    AtLeast { min: i64 },
    /// Integer values must be at most `max`.
    AtMost { max: i64 },
    /// Integer values must differ from `value`.
    Excludes { value: i64 },
    /// Boolean values must equal `value`.
    Requires { value: bool },
    /// Text values must hold at least one character.
    NonEmpty,
    /// Text values must hold at most `max` characters.
    MaxLength { max: usize },
}

/// A column of a table.
#[derive(Clone, Copy, Debug)]
pub struct ColumnDef {
    /// The name of the column.
    pub name: &'static str,
    /// The kind of the column's non-null values.
    pub kind: ValueKind,
    /// Whether the column accepts `NULL`.
    pub nullable: bool,
    /// The value a new builder starts with, if the column has a default.
    pub default_value: Option<Option<Value>>,
    /// The validation rule of the column.
    pub check: ColumnCheck,
}

/// Whether a column value has the type of the column: `NULL` only in a
/// nullable column, and otherwise a value of the column's kind.
pub open spec fn fits(col: ColumnDef, cell: Option<Value>) -> bool {
    match cell {
        None => col.nullable,
        Some(v) => kind_of(v) == col.kind,
    }
}

/// Whether a column value passes the column's validation rule. `NULL`
/// values are never checked, and a rule on one kind of values passes every
/// value of the other kinds.
pub open spec fn passes_check(col: ColumnDef, cell: Option<Value>) -> bool {
    match cell {
        Some(Value::Integer(x)) => match col.check {
            ColumnCheck::Range { min, max } => min <= x && x <= max,
            ColumnCheck::AtLeast { min } => min <= x,
            ColumnCheck::AtMost { max } => x <= max,
            ColumnCheck::Excludes { value } => x != value,
            _ => true,
        },
        Some(Value::Boolean(b)) => match col.check {
            ColumnCheck::Requires { value } => b == value,
            _ => true,
        },
        Some(Value::Text(t)) => match col.check {
            ColumnCheck::NonEmpty => t@.len() > 0,
            ColumnCheck::MaxLength { max } => t@.len() <= max,
            _ => true,
        },
        None => true,
    }
}

impl ColumnDef {
    /// Returns whether `cell` has the type of this column.
    pub fn accepts(&self, cell: &Option<Value>) -> (r: bool)
        ensures
            r == fits(*self, *cell),
    {
        match cell {
            None => self.nullable,
            Some(v) => v.kind() == self.kind,
        }
    }

    /// Returns whether `cell` passes the validation rule of this column.
    pub fn check_value(&self, cell: &Option<Value>) -> (r: bool)
        ensures
            r == passes_check(*self, *cell),
    {
        match cell {
            Some(Value::Integer(x)) => match self.check {
                ColumnCheck::Range { min, max } => min <= *x && *x <= max,
                ColumnCheck::AtLeast { min } => min <= *x,
                ColumnCheck::AtMost { max } => *x <= max,
                ColumnCheck::Excludes { value } => *x != value,
                _ => true,
            },
            Some(Value::Boolean(b)) => match self.check {
                ColumnCheck::Requires { value } => *b == value,
                _ => true,
            },
            Some(Value::Text(t)) => match self.check {
                ColumnCheck::NonEmpty => t.unicode_len() > 0,
                ColumnCheck::MaxLength { max } => t.unicode_len() <= max,
                _ => true,
            },
            None => true,
        }
    }
}

/// Conversion of a column into its nullable counterpart, as the columns of
/// the optional side of a join are read.
pub trait MaybeNullable {
    /// The output of the conversion.
    type Output;

    /// What the conversion returns.
    spec fn nullable_spec(&self) -> Self::Output;

    /// Returns the column as a nullable column.
    fn maybe_nullable(&self) -> (r: Self::Output)
        ensures
            r == self.nullable_spec(),
    ;
}

impl MaybeNullable for ColumnDef {
    type Output = ColumnDef;

    open spec fn nullable_spec(&self) -> ColumnDef {
        ColumnDef { nullable: true, ..*self }
    }

    fn maybe_nullable(&self) -> (r: ColumnDef) {
        ColumnDef { nullable: true, ..*self }
    }
}

/// A horizontal same-as key: a column of the host table referencing the
/// primary key of another table, together with the host columns whose values
/// are shared with columns of the referenced table (same position, same
/// value).
pub struct HorizontalKeyDef {
    /// The key column in the host table.
    pub key_column: usize,
    /// The referenced table.
    pub referenced_table: usize,
    /// Columns of the host table.
    pub host_columns: Vec<usize>,
    /// Columns of the referenced table, one per host column.
    pub foreign_columns: Vec<usize>,
}

/// A foreign key: host columns referencing columns of another table.
pub struct ForeignKeyDef {
    /// Columns of the host table.
    pub host_columns: Vec<usize>,
    /// The referenced table.
    pub referenced_table: usize,
    /// Columns of the referenced table, one per host column.
    pub referenced_columns: Vec<usize>,
}

/// An index of a table: its columns, in order, and whether it is unique.
pub struct IndexDef {
    /// The indexed columns.
    pub columns: Vec<usize>,
    /// Whether no two rows share the values of the columns.
    pub unique: bool,
}

/// A table.
pub struct TableDef {
    /// The name of the table.
    pub name: &'static str,
    /// The columns of the table.
    pub columns: Vec<ColumnDef>,
    /// The (non-composite) primary key column.
    pub primary_key: usize,
    /// The ancestor tables, root first, without the table itself.
    pub ancestors: Vec<usize>,
    /// The mandatory triangular same-as keys.
    pub mandatory_keys: Vec<HorizontalKeyDef>,
    /// The discretionary triangular same-as keys.
    pub discretionary_keys: Vec<HorizontalKeyDef>,
    /// The foreign keys of the table.
    pub foreign_keys: Vec<ForeignKeyDef>,
    /// The declared indexes of the table, besides its primary key, which is
    /// always a unique index.
    pub indexes: Vec<IndexDef>,
}

/// A collection of tables, referenced by their position.
pub struct Schema {
    /// The tables.
    pub tables: Vec<TableDef>,
}

/// The first position of `x` in `s`.
pub open spec fn is_first_position(s: Seq<usize>, x: usize, p: int) -> bool {
    &&& 0 <= p < s.len()
    &&& s[p] == x
    &&& forall|j: int| 0 <= j < p ==> s[j] != x
}

/// The column of the referenced table that shares its value with host
/// column `c` under key `k`, if `c` is one of the key's host columns.
pub open spec fn same_as_target(k: HorizontalKeyDef, c: usize) -> Option<usize> {
    if exists|p: int| is_first_position(k.host_columns@, c, p) {
        let p = choose|p: int| is_first_position(k.host_columns@, c, p);
        Some(k.foreign_columns@[p])
    } else {
        None
    }
}

/// Returns the first position of `x` in `v`, if any.
pub fn first_position(v: &Vec<usize>, x: usize) -> (r: Option<usize>)
    ensures
        match r {
            Some(p) => is_first_position(v@, x, p as int),
            None => forall|j: int| 0 <= j < v@.len() ==> v@[j] != x,
        },
{
    let mut i: usize = 0;
    while i < v.len()
        invariant
            i <= v@.len(),
            forall|j: int| 0 <= j < i ==> v@[j] != x,
        decreases v.len() - i,
    {
        if v[i] == x {
            return Some(i);
        }
        i += 1;
    }
    None
}

impl HorizontalKeyDef {
    /// Returns the column of the referenced table that shares its value with
    /// host column `c`, if `c` is one of the key's host columns.
    pub fn target_of(&self, c: usize) -> (r: Option<usize>)
        requires
            self.host_columns@.len() == self.foreign_columns@.len(),
        ensures
            r == same_as_target(*self, c),
    {
        match first_position(&self.host_columns, c) {
            Some(p) => {
                assert(is_first_position(self.host_columns@, c, p as int));
                let ghost q = choose|q: int| is_first_position(self.host_columns@, c, q);
                assert(q == p as int) by {
                    if q < p as int {
                        assert(self.host_columns@[q] != c);
                    } else if q > p as int {
                        assert(self.host_columns@[p as int] != c);
                    }
                }
                Some(self.foreign_columns[p])
            },
            None => None,
        }
    }
}

impl Schema {
    /// Whether `t` is a table of the schema.
    pub open spec fn has_table(self, t: int) -> bool {
        0 <= t < self.tables@.len()
    }

    /// Whether `c` is a column of table `t`.
    pub open spec fn has_column(self, t: int, c: int) -> bool {
        self.has_table(t) && 0 <= c < self.tables@[t].columns@.len()
    }

    /// Column `c` of table `t`.
    pub open spec fn column(self, t: int, c: int) -> ColumnDef {
        self.tables@[t].columns@[c]
    }

    /// The number of columns of table `t`.
    pub open spec fn num_columns(self, t: int) -> nat {
        self.tables@[t].columns@.len()
    }

    /// The primary key column of table `t`.
    pub open spec fn pk(self, t: int) -> int {
        self.tables@[t].primary_key as int
    }

    /// The ancestors of table `t` followed by `t` itself.
    pub open spec fn chain(self, t: int) -> Seq<usize> {
        self.tables@[t].ancestors@.push(t as usize)
    }

    /// A well-formed horizontal same-as key of table `t`.
    pub open spec fn key_wf(self, t: int, k: HorizontalKeyDef) -> bool {
        let r = k.referenced_table as int;
        &&& self.has_column(t, k.key_column as int)
        &&& self.has_table(r)
        &&& k.host_columns@.len() == k.foreign_columns@.len()
        &&& forall|j: int|
            #![trigger k.host_columns@[j]]
            0 <= j < k.host_columns@.len() ==> {
                &&& self.has_column(t, k.host_columns@[j] as int)
                &&& self.has_column(r, k.foreign_columns@[j] as int)
                &&& self.column(t, k.host_columns@[j] as int).kind == self.column(
                    r,
                    k.foreign_columns@[j] as int,
                ).kind
            }
        &&& self.column(t, k.key_column as int).kind == self.column(r, self.pk(r)).kind
    }

    /// Whether `cols` is an index of table `t`: its primary key alone, or
    /// one of its declared indexes.
    pub open spec fn is_index(self, t: int, cols: Seq<usize>) -> bool {
        ||| cols == seq![self.tables@[t].primary_key]
        ||| exists|k: int|
            0 <= k < self.tables@[t].indexes@.len() && (#[trigger] self.tables@[t].indexes@[k]).columns@ == cols
    }

    /// Whether `cols` is a unique index of table `t`: its primary key alone,
    /// or one of its declared unique indexes.
    pub open spec fn is_unique_index(self, t: int, cols: Seq<usize>) -> bool {
        ||| cols == seq![self.tables@[t].primary_key]
        ||| exists|k: int|
            0 <= k < self.tables@[t].indexes@.len() && (#[trigger] self.tables@[t].indexes@[k]).unique
                && self.tables@[t].indexes@[k].columns@ == cols
    }

    /// A well-formed index of table `t`: some columns of the table.
    pub open spec fn index_wf(self, t: int, ix: IndexDef) -> bool {
        &&& ix.columns@.len() > 0
        &&& forall|j: int| #![trigger ix.columns@[j]] 0 <= j < ix.columns@.len() ==> self.has_column(t, ix.columns@[j] as int)
    }

    /// A well-formed foreign key of table `t`: it references an index of
    /// another table, with host columns of the same kinds.
    pub open spec fn foreign_key_wf(self, t: int, f: ForeignKeyDef) -> bool {
        let r = f.referenced_table as int;
        &&& self.has_table(r)
        &&& self.is_index(r, f.referenced_columns@)
        &&& f.host_columns@.len() == f.referenced_columns@.len()
        &&& f.host_columns@.len() > 0
        &&& forall|j: int|
            #![trigger f.host_columns@[j]]
            0 <= j < f.host_columns@.len() ==> {
                &&& self.has_column(t, f.host_columns@[j] as int)
                &&& self.has_column(r, f.referenced_columns@[j] as int)
                &&& self.column(t, f.host_columns@[j] as int).kind == self.column(
                    r,
                    f.referenced_columns@[j] as int,
                ).kind
            }
    }

    /// A well-formed table: a non-null primary key, defaults of the column
    /// types, ancestors listed before the table and sharing its primary key
    /// type, and well-formed keys.
    pub open spec fn table_wf(self, t: int) -> bool {
        let td = self.tables@[t];
        &&& 0 <= td.primary_key < td.columns@.len()
        &&& !td.columns@[td.primary_key as int].nullable
        &&& forall|c: int|
            #![trigger td.columns@[c]]
            0 <= c < td.columns@.len() ==> match td.columns@[c].default_value {
                Some(d) => fits(td.columns@[c], d),
                None => true,
            }
        &&& forall|k: int|
            #![trigger td.ancestors@[k]]
            0 <= k < td.ancestors@.len() ==> {
                &&& 0 <= td.ancestors@[k] < t
                &&& self.column(td.ancestors@[k] as int, self.pk(td.ancestors@[k] as int)).kind
                    == td.columns@[td.primary_key as int].kind
            }
        &&& forall|k: int, l: int|
            0 <= k < l < td.ancestors@.len() ==> td.ancestors@[k] != td.ancestors@[l]
        &&& forall|k: int|
            #![trigger td.mandatory_keys@[k]]
            0 <= k < td.mandatory_keys@.len() ==> self.key_wf(t, td.mandatory_keys@[k])
        &&& forall|k: int|
            #![trigger td.discretionary_keys@[k]]
            0 <= k < td.discretionary_keys@.len() ==> self.key_wf(t, td.discretionary_keys@[k])
        &&& forall|k: int|
            #![trigger td.foreign_keys@[k]]
            0 <= k < td.foreign_keys@.len() ==> self.foreign_key_wf(t, td.foreign_keys@[k])
        &&& forall|k: int|
            #![trigger td.indexes@[k]]
            0 <= k < td.indexes@.len() ==> self.index_wf(t, td.indexes@[k])
    }

    /// A well-formed schema: every table is well formed.
    pub open spec fn wf(self) -> bool {
        forall|t: int| 0 <= t < self.tables@.len() ==> #[trigger] self.table_wf(t)
    }
}

} // verus!

verus! {

/// Returns whether column `c` is a column of table `t`.
fn has_column_exec(s: &Schema, t: usize, c: usize) -> (r: bool)
    ensures
        r == s.has_column(t as int, c as int),
{
    t < s.tables.len() && c < s.tables[t].columns.len()
}

/// Whether the primary key of every table is one of its columns.
pub open spec fn primary_keys_in_range(s: Schema) -> bool {
    forall|t: int|
        #![trigger s.tables@[t]]
        0 <= t < s.tables@.len() ==> 0 <= s.tables@[t].primary_key < s.tables@[t].columns@.len()
}

/// Returns whether `k` is a well-formed horizontal key of table `t`.
fn check_key(s: &Schema, t: usize, k: &HorizontalKeyDef) -> (r: bool)
    requires
        s.has_table(t as int),
        primary_keys_in_range(*s),
    ensures
        r == s.key_wf(t as int, *k),
{
    let r = k.referenced_table;
    if !has_column_exec(s, t, k.key_column) || r >= s.tables.len() {
        return false;
    }
    if k.host_columns.len() != k.foreign_columns.len() {
        return false;
    }
    let mut j: usize = 0;
    while j < k.host_columns.len()
        invariant
            j <= k.host_columns@.len(),
            k.host_columns@.len() == k.foreign_columns@.len(),
            r == k.referenced_table,
            forall|i: int|
                #![trigger k.host_columns@[i]]
                0 <= i < j ==> {
                    &&& s.has_column(t as int, k.host_columns@[i] as int)
                    &&& s.has_column(r as int, k.foreign_columns@[i] as int)
                    &&& s.column(t as int, k.host_columns@[i] as int).kind == s.column(
                        r as int,
                        k.foreign_columns@[i] as int,
                    ).kind
                },
        decreases k.host_columns.len() - j,
    {
        let h = k.host_columns[j];
        let f = k.foreign_columns[j];
        if !has_column_exec(s, t, h) || !has_column_exec(s, r, f) {
            return false;
        }
        if s.tables[t].columns[h].kind != s.tables[r].columns[f].kind {
            return false;
        }
        j += 1;
    }
    assert(0 <= s.tables@[r as int].primary_key < s.tables@[r as int].columns@.len());
    s.tables[t].columns[k.key_column].kind == s.tables[r].columns[s.tables[r].primary_key].kind
}

/// Returns whether `a` and `b` hold the same columns in the same order.
pub fn same_columns(a: &Vec<usize>, b: &Vec<usize>) -> (r: bool)
    ensures
        r == (a@ == b@),
{
    if a.len() != b.len() {
        return false;
    }
    let mut j: usize = 0;
    while j < a.len()
        invariant
            j <= a@.len(),
            a@.len() == b@.len(),
            forall|i: int| 0 <= i < j ==> a@[i] == b@[i],
        decreases a.len() - j,
    {
        if a[j] != b[j] {
            return false;
        }
        j += 1;
    }
    assert(a@ =~= b@);
    true
}

/// Returns whether `cols` is an index of table `t`, or, with `unique`, a
/// unique index.
pub fn find_index(s: &Schema, t: usize, cols: &Vec<usize>, unique: bool) -> (r: bool)
    requires
        s.has_table(t as int),
    ensures
        r == if unique {
            s.is_unique_index(t as int, cols@)
        } else {
            s.is_index(t as int, cols@)
        },
{
    let td = &s.tables[t];
    if cols.len() == 1 && cols[0] == td.primary_key {
        assert(cols@ =~= seq![td.primary_key]);
        return true;
    }
    assert(cols@ != seq![td.primary_key]) by {
        if cols@ == seq![td.primary_key] {
            assert(cols@.len() == 1 && cols@[0] == td.primary_key);
        }
    }
    let mut k: usize = 0;
    while k < td.indexes.len()
        invariant
            k <= td.indexes@.len(),
            td == &s.tables@[t as int],
            forall|i: int|
                #![trigger td.indexes@[i]]
                0 <= i < k ==> !((!unique || td.indexes@[i].unique) && td.indexes@[i].columns@ == cols@),
        decreases td.indexes.len() - k,
    {
        if (!unique || td.indexes[k].unique) && same_columns(&td.indexes[k].columns, cols) {
            assert(td.indexes@[k as int].columns@ == cols@);
            return true;
        }
        k += 1;
    }
    false
}

/// Returns whether `ix` is a well-formed index of table `t`.
fn check_index(s: &Schema, t: usize, ix: &IndexDef) -> (r: bool)
    requires
        s.has_table(t as int),
    ensures
        r == s.index_wf(t as int, *ix),
{
    if ix.columns.len() == 0 {
        return false;
    }
    let mut j: usize = 0;
    while j < ix.columns.len()
        invariant
            j <= ix.columns@.len(),
            forall|i: int| #![trigger ix.columns@[i]] 0 <= i < j ==> s.has_column(t as int, ix.columns@[i] as int),
        decreases ix.columns.len() - j,
    {
        if !has_column_exec(s, t, ix.columns[j]) {
            return false;
        }
        j += 1;
    }
    true
}

/// Returns whether `f` is a well-formed foreign key of table `t`.
fn check_foreign_key(s: &Schema, t: usize, f: &ForeignKeyDef) -> (r: bool)
    requires
        s.has_table(t as int),
    ensures
        r == s.foreign_key_wf(t as int, *f),
{
    let r = f.referenced_table;
    if r >= s.tables.len() || f.host_columns.len() != f.referenced_columns.len() || f.host_columns.len() == 0 {
        return false;
    }
    if !find_index(s, r, &f.referenced_columns, false) {
        return false;
    }
    let mut j: usize = 0;
    while j < f.host_columns.len()
        invariant
            j <= f.host_columns@.len(),
            f.host_columns@.len() == f.referenced_columns@.len(),
            r == f.referenced_table,
            forall|i: int|
                #![trigger f.host_columns@[i]]
                0 <= i < j ==> {
                    &&& s.has_column(t as int, f.host_columns@[i] as int)
                    &&& s.has_column(r as int, f.referenced_columns@[i] as int)
                    &&& s.column(t as int, f.host_columns@[i] as int).kind == s.column(
                        r as int,
                        f.referenced_columns@[i] as int,
                    ).kind
                },
        decreases f.host_columns.len() - j,
    {
        let h = f.host_columns[j];
        let c = f.referenced_columns[j];
        if !has_column_exec(s, t, h) || !has_column_exec(s, r, c) {
            return false;
        }
        if s.tables[t].columns[h].kind != s.tables[r].columns[c].kind {
            return false;
        }
        j += 1;
    }
    true
}

/// Returns whether every key of `keys` is a well-formed key of table `t`.
fn check_keys(s: &Schema, t: usize, keys: &Vec<HorizontalKeyDef>) -> (r: bool)
    requires
        s.has_table(t as int),
        primary_keys_in_range(*s),
    ensures
        r == forall|k: int| #![trigger keys@[k]] 0 <= k < keys@.len() ==> s.key_wf(t as int, keys@[k]),
{
    let mut k: usize = 0;
    while k < keys.len()
        invariant
            k <= keys@.len(),
            s.has_table(t as int),
            primary_keys_in_range(*s),
            forall|i: int| #![trigger keys@[i]] 0 <= i < k ==> s.key_wf(t as int, keys@[i]),
        decreases keys.len() - k,
    {
        if !check_key(s, t, &keys[k]) {
            return false;
        }
        k += 1;
    }
    true
}

/// Returns whether table `t` is well formed.
fn check_table(s: &Schema, t: usize) -> (r: bool)
    requires
        s.has_table(t as int),
        primary_keys_in_range(*s),
    ensures
        r == s.table_wf(t as int),
{
    let td = &s.tables[t];
    assert(0 <= td.primary_key < td.columns@.len());
    if td.columns[td.primary_key].nullable {
        return false;
    }
    let mut c: usize = 0;
    while c < td.columns.len()
        invariant
            c <= td.columns@.len(),
            td == &s.tables@[t as int],
            s.has_table(t as int),
            forall|i: int|
                #![trigger td.columns@[i]]
                0 <= i < c ==> match td.columns@[i].default_value {
                    Some(d) => fits(td.columns@[i], d),
                    None => true,
                },
        decreases td.columns.len() - c,
    {
        match &td.columns[c].default_value {
            Some(d) => {
                if !td.columns[c].accepts(d) {
                    assert(!fits(td.columns@[c as int], *d));
                    assert(td.columns@[c as int] == s.tables@[t as int].columns@[c as int]);
                    return false;
                }
            },
            None => {},
        }
        c += 1;
    }
    let pk_kind = td.columns[td.primary_key].kind;
    let mut k: usize = 0;
    while k < td.ancestors.len()
        invariant
            k <= td.ancestors@.len(),
            td == &s.tables@[t as int],
            s.has_table(t as int),
            primary_keys_in_range(*s),
            pk_kind == td.columns@[td.primary_key as int].kind,
            forall|i: int|
                #![trigger td.ancestors@[i]]
                0 <= i < k ==> {
                    &&& 0 <= td.ancestors@[i] < t
                    &&& s.column(td.ancestors@[i] as int, s.pk(td.ancestors@[i] as int)).kind == pk_kind
                },
            forall|i: int, l: int| 0 <= i < l < k ==> td.ancestors@[i] != td.ancestors@[l],
        decreases td.ancestors.len() - k,
    {
        let a = td.ancestors[k];
        if a >= t {
            return false;
        }
        assert(0 <= s.tables@[a as int].primary_key < s.tables@[a as int].columns@.len()) by {
            assert(s.tables@[a as int] == s.tables@[a as int]);
        }
        if s.tables[a].columns[s.tables[a].primary_key].kind != pk_kind {
            return false;
        }
        let mut l: usize = 0;
        while l < k
            invariant
                l <= k,
                td == &s.tables@[t as int],
                s.has_table(t as int),
                k < td.ancestors@.len(),
                a == td.ancestors@[k as int],
                forall|i: int| 0 <= i < l ==> td.ancestors@[i] != a,
            decreases k - l,
        {
            if td.ancestors[l] == a {
                assert(td.ancestors@[l as int] == td.ancestors@[k as int]);
                return false;
            }
            l += 1;
        }
        k += 1;
    }
    if !check_keys(s, t, &td.mandatory_keys) || !check_keys(s, t, &td.discretionary_keys) {
        return false;
    }
    let mut k: usize = 0;
    while k < td.foreign_keys.len()
        invariant
            k <= td.foreign_keys@.len(),
            td == &s.tables@[t as int],
            s.has_table(t as int),
            forall|i: int|
                #![trigger td.foreign_keys@[i]]
                0 <= i < k ==> s.foreign_key_wf(t as int, td.foreign_keys@[i]),
        decreases td.foreign_keys.len() - k,
    {
        if !check_foreign_key(s, t, &td.foreign_keys[k]) {
            return false;
        }
        k += 1;
    }
    let mut k: usize = 0;
    while k < td.indexes.len()
        invariant
            k <= td.indexes@.len(),
            td == &s.tables@[t as int],
            s.has_table(t as int),
            forall|i: int|
                #![trigger td.indexes@[i]]
                0 <= i < k ==> s.index_wf(t as int, td.indexes@[i]),
        decreases td.indexes.len() - k,
    {
        if !check_index(s, t, &td.indexes[k]) {
            return false;
        }
        k += 1;
    }
    true
}

impl Schema {
    /// Returns whether the schema is well formed: every table has a
    /// non-null primary key among its columns, defaults of its column
    /// types, distinct ancestors listed before it with primary keys of the
    /// same kind, well-formed keys, foreign keys that reference an index,
    /// and indexes of its own columns.
    pub fn is_well_formed(&self) -> (r: bool)
        ensures
            r == self.wf(),
    {
        let mut t: usize = 0;
        while t < self.tables.len()
            invariant
                t <= self.tables@.len(),
                forall|i: int|
                    #![trigger self.tables@[i]]
                    0 <= i < t ==> 0 <= self.tables@[i].primary_key < self.tables@[i].columns@.len(),
            decreases self.tables.len() - t,
        {
            if self.tables[t].primary_key >= self.tables[t].columns.len() {
                assert(!self.table_wf(t as int));
                return false;
            }
            t += 1;
        }
        assert(primary_keys_in_range(*self));
        let mut t: usize = 0;
        while t < self.tables.len()
            invariant
                t <= self.tables@.len(),
                primary_keys_in_range(*self),
                forall|i: int| 0 <= i < t ==> #[trigger] self.table_wf(i),
            decreases self.tables.len() - t,
        {
            if !check_table(self, t) {
                return false;
            }
            t += 1;
        }
        true
    }
}

} // verus!
