# diesel_builders

Builders for inserting records into hierarchies of database tables, verified
with Verus.

Tables are described at run time by a `Schema`: each table has typed columns
(with nullability, defaults and validation rules), a non-composite primary
key, its ancestors (root first), its mandatory and discretionary triangular
same-as keys, its foreign keys, and its indexes (the primary key is always
a unique index; a foreign key must reference an index). `Schema::is_well_formed`
decides the well-formedness that every operation assumes.

A `TableBuilder` holds one `TableBuilderBundle` per table of the chain of a
table (its ancestors, then itself). Setting a column validates the value,
passes it on to the builders of the same-as keys that host the column, and
stores it. A bundle is completed once every mandatory builder is set, and
inserted by `BundleInsertion`/`BuilderInsertion`, which decide the next
database operation from the record the previous one returned.

Records can also be read through dynamic columns, from one record or from
the records of a table and its ancestors, and the foreign keys of records
that reference an index can be listed with their values. `lookup.rs` turns
what the database returned for a lookup by primary key, or for an upsert,
into the answer of `exists` and of `upsert`.

Column values are integers, booleans and texts; text values borrow
`'static` strings, as column names do, so that a value stays `Copy`.

Layout:

- `src/`: the verified library. `laws.rs` states, as proof functions, the
  properties that relate several operations (a read after a write, refused
  writes, same-as propagation, key columns of inserted rows, dynamic reads).
- `tests/`: tests on concrete schemas and records.
- `app/`: the error types with their standard and database traits, the
  loop that drives an insertion through a store of rows, and `exists` and
  `upsert` over the same store.
