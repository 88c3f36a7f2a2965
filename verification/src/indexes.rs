//! Indexes of tables: the primary key and the declared indexes, the
//! columns they hold, and their tails.
use vstd::prelude::*;
use crate::schema::{Schema, find_index, same_columns};
use crate::hierarchy::Hierarchy;
use crate::relations::{ForeignKey, is_foreign_key};

verus! {

/// Column lists that are indexes of a table.
pub trait TableIndex: Hierarchy {
    /// Whether `cols` is an index of table `t`.
    spec fn index_of(&self, t: int, cols: Seq<usize>) -> bool;

    /// Returns whether `cols` is an index of table `t`.
    fn is_table_index(&self, t: usize, cols: &Vec<usize>) -> (r: bool)
        requires
            self.valid_table(t as int),
        ensures
            r == self.index_of(t as int, cols@),
    ;
}

impl TableIndex for Schema {
    open spec fn index_of(&self, t: int, cols: Seq<usize>) -> bool {
        self.is_index(t, cols)
    }

    fn is_table_index(&self, t: usize, cols: &Vec<usize>) -> (r: bool) {
        find_index(self, t, cols, false)
    }
}

/// Column lists that are unique indexes of a table.
pub trait UniqueTableIndex: TableIndex {
    /// Whether `cols` is a unique index of table `t`.
    spec fn unique_index_of(&self, t: int, cols: Seq<usize>) -> bool;

    /// Returns whether `cols` is a unique index of table `t`.
    fn is_unique_table_index(&self, t: usize, cols: &Vec<usize>) -> (r: bool)
        requires
            self.valid_table(t as int),
        ensures
            r == self.unique_index_of(t as int, cols@),
    ;
}

impl UniqueTableIndex for Schema {
    open spec fn unique_index_of(&self, t: int, cols: Seq<usize>) -> bool {
        self.is_unique_index(t, cols)
    }

    fn is_unique_table_index(&self, t: usize, cols: &Vec<usize>) -> (r: bool) {
        find_index(self, t, cols, true)
    }
}

/// Columns that stand at a position of an index.
pub trait IndexedColumn: TableIndex {
    /// Returns whether column `c` stands at position `idx` of index `cols`
    /// of table `t`.
    fn is_indexed_column(&self, t: usize, cols: &Vec<usize>, idx: usize, c: usize) -> (r: bool)
        requires
            self.valid_table(t as int),
        ensures
            r == (self.index_of(t as int, cols@) && idx < cols@.len() && cols@[idx as int] == c),
    {
        self.is_table_index(t, cols) && idx < cols.len() && cols[idx] == c
    }
}

impl IndexedColumn for Schema {}

/// Columns that stand at a position of a unique index.
pub trait UniquelyIndexedColumn: UniqueTableIndex {
    /// Returns whether column `c` stands at position `idx` of unique index
    /// `cols` of table `t`.
    fn is_uniquely_indexed_column(&self, t: usize, cols: &Vec<usize>, idx: usize, c: usize) -> (r: bool)
        requires
            self.valid_table(t as int),
        ensures
            r == (self.unique_index_of(t as int, cols@) && idx < cols@.len() && cols@[idx as int] == c),
    {
        self.is_unique_table_index(t, cols) && idx < cols.len() && cols[idx] == c
    }
}

impl UniquelyIndexedColumn for Schema {}

/// Returns whether `tail` holds the columns of `full` from position `idx`
/// on, at least one of them.
fn is_tail(full: &Vec<usize>, idx: usize, tail: &Vec<usize>) -> (r: bool)
    ensures
        r == (idx < full@.len() && tail@ == full@.skip(idx as int)),
{
    if idx >= full.len() || tail.len() != full.len() - idx {
        return false;
    }
    let mut j: usize = 0;
    while j < tail.len()
        invariant
            idx < full@.len(),
            full@.len() <= usize::MAX,
            tail@.len() == full@.len() - idx,
            j <= tail@.len(),
            forall|i: int| 0 <= i < j ==> tail@[i] == full@[idx + i],
        decreases tail.len() - j,
    {
        if tail[j] != full[idx + j] {
            assert(tail@ != full@.skip(idx as int)) by {
                assert(full@.skip(idx as int)[j as int] == full@[idx + j]);
            }
            return false;
        }
        j += 1;
    }
    assert(tail@ =~= full@.skip(idx as int));
    true
}

/// Tails of indexes: the columns of an index from a position on.
pub trait NestedTableIndexTail: TableIndex {
    /// Returns whether `tail` holds the columns of index `full` of table `t`
    /// from position `idx` on.
    fn is_index_tail(&self, t: usize, full: &Vec<usize>, idx: usize, tail: &Vec<usize>) -> (r: bool)
        requires
            self.valid_table(t as int),
        ensures
            r == (self.index_of(t as int, full@) && idx < full@.len() && tail@ == full@.skip(idx as int)),
    {
        self.is_table_index(t, full) && is_tail(full, idx, tail)
    }
}

impl NestedTableIndexTail for Schema {}

/// Tails of unique indexes: the columns of a unique index from a position
/// on.
pub trait NestedUniqueTableIndexTail: UniqueTableIndex {
    /// Returns whether `tail` holds the columns of unique index `full` of
    /// table `t` from position `idx` on.
    fn is_unique_index_tail(&self, t: usize, full: &Vec<usize>, idx: usize, tail: &Vec<usize>) -> (r: bool)
        requires
            self.valid_table(t as int),
        ensures
            r == (self.unique_index_of(t as int, full@) && idx < full@.len() && tail@ == full@.skip(idx as int)),
    {
        self.is_unique_table_index(t, full) && is_tail(full, idx, tail)
    }
}

impl NestedUniqueTableIndexTail for Schema {}

/// Tails of foreign keys: the host columns of a foreign key from a position
/// on, with the referenced columns from the same position on.
pub trait NestedForeignKeyTail: ForeignKey {
    /// Returns whether table `t` has a foreign key with host columns `host`
    /// referencing columns `cols` of table `r`, and `host_tail` and
    /// `cols_tail` hold these columns from position `idx` on.
    fn is_foreign_key_tail(
        &self,
        t: usize,
        host: &Vec<usize>,
        r: usize,
        cols: &Vec<usize>,
        idx: usize,
        host_tail: &Vec<usize>,
        cols_tail: &Vec<usize>,
    ) -> (b: bool)
        requires
            self.valid_fk_table(t as int),
        ensures
            b == ((exists|k: int|
                0 <= k < self.foreign_keys_of(t as int).len() && is_foreign_key(
                    #[trigger] self.foreign_keys_of(t as int)[k],
                    host@,
                    r,
                    cols@,
                )) && idx < host@.len() && host_tail@ == host@.skip(idx as int) && idx < cols@.len()
                && cols_tail@ == cols@.skip(idx as int)),
    {
        self.has_foreign_key(t, host, r, cols) && is_tail(host, idx, host_tail) && is_tail(cols, idx, cols_tail)
    }
}

impl NestedForeignKeyTail for Schema {}

} // verus!
