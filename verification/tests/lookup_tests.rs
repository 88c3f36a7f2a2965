use diesel::result::Error;
use diesel_builders::lookup::{first_upserted, model_exists};
use diesel_builders::model::Model;
use diesel_builders::value::Value;

fn record(id: i64) -> Model {
    Model { table: 0, values: vec![Some(Value::Integer(id)), None] }
}

#[test]
fn exists_when_found() {
    assert_eq!(model_exists(Ok(record(1))), Ok(true));
}

#[test]
fn exists_is_false_on_not_found() {
    assert_eq!(model_exists(Err(Error::NotFound)), Ok(false));
}

#[test]
fn exists_hands_back_other_errors() {
    assert_eq!(model_exists(Err(Error::AlreadyInTransaction)), Err(Error::AlreadyInTransaction));
    assert_eq!(model_exists(Err(Error::RollbackTransaction)), Err(Error::RollbackTransaction));
}

#[test]
fn upsert_answers_first_row() {
    assert_eq!(first_upserted(vec![record(7), record(8)]), Ok(record(7)));
    assert_eq!(first_upserted(vec![record(3)]), Ok(record(3)));
}

#[test]
fn upsert_without_rows_is_not_found() {
    assert_eq!(first_upserted(vec![]), Err(Error::NotFound));
}
