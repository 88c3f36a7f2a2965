//! What a lookup of a record by its primary key and an upsert of a record
//! answer, from what the database returned.
use vstd::prelude::*;
use crate::model::Model;

verus! {

/// Whether a database error is `NotFound`: no row where one was expected.
pub uninterp spec fn error_is_not_found(e: diesel::result::Error) -> bool;

/// Calls diesel's `OptionalExtension::optional` on the result of a lookup.
/// Its source turns a record into `Some` of it, the error `NotFound` into
/// `None`, and hands every other error back unchanged.
#[verifier::external_body]
fn optional_lookup(found: Result<Model, diesel::result::Error>) -> (r: Result<Option<Model>, diesel::result::Error>)
    ensures
        found is Ok ==> (r is Ok && r->Ok_0 == Some(found->Ok_0)),
        found is Err && error_is_not_found(found->Err_0) ==> (r is Ok && r->Ok_0 is None),
        found is Err && !error_is_not_found(found->Err_0) ==> (r is Err && r->Err_0 == found->Err_0),
{
    diesel::OptionalExtension::optional(found)
}

/// Builds diesel's error `NotFound`.
#[verifier::external_body]
fn not_found_error() -> (e: diesel::result::Error)
    ensures
        error_is_not_found(e),
{
    diesel::result::Error::NotFound
}

/// Whether a record exists, from the outcome of looking it up by its
/// primary key: a record found means `true`, `NotFound` means `false`, and
/// any other error is returned.
pub fn model_exists(found: Result<Model, diesel::result::Error>) -> (r: Result<bool, diesel::result::Error>)
    ensures
        found is Ok ==> (r is Ok && r->Ok_0),
        found is Err && error_is_not_found(found->Err_0) ==> (r is Ok && !r->Ok_0),
        found is Err && !error_is_not_found(found->Err_0) ==> (r is Err && r->Err_0 == found->Err_0),
{
    match optional_lookup(found) {
        Ok(Some(_)) => Ok(true),
        Ok(None) => Ok(false),
        Err(e) => Err(e),
    }
}

/// The record an upsert answers, from the rows the database returned for
/// it: the first row, or the error `NotFound` when none came back.
pub fn first_upserted(rows: Vec<Model>) -> (r: Result<Model, diesel::result::Error>)
    ensures
        rows@.len() > 0 ==> (r is Ok && r->Ok_0 == rows@[0]),
        rows@.len() == 0 ==> (r matches Err(e) && error_is_not_found(e)),
{
    let mut rows = rows;
    if rows.len() > 0 {
        Ok(rows.remove(0))
    } else {
        Err(not_found_error())
    }
}

} // verus!
