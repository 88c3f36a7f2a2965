//! Builders for inserting records into hierarchies of tables, with
//! horizontal same-as propagation, completeness checks and dynamic column
//! access, over a runtime description of the tables.
pub mod value;
pub mod schema;
pub mod hierarchy;
pub mod builder_error;
pub mod model;
pub mod get_set_columns;
pub mod builder_bundle;
pub mod completed_bundle;
pub mod nested_models;
pub mod insertion;
pub mod dynamic_columns;
pub mod columns;
pub mod foreign_keys;
pub mod get_model;
pub mod buildable;
pub mod relations;
pub mod lookup;
pub mod indexes;
pub mod laws;
pub mod foreign_key_laws;
