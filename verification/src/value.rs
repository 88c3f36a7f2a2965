//! Column values and their kinds.
use vstd::prelude::*;

verus! {

/// The kind of a non-null column value.
#[derive(Clone, Copy, Debug, PartialEq, Eq, Hash, PartialOrd, Ord, Structural)]
pub enum ValueKind {
    /// A signed integer column.
    Integer,
    /// A boolean column.
    Boolean,
    /// A text column.
    Text,
}

/// A non-null column value.
#[derive(Clone, Copy, Debug, PartialEq, Eq, Hash, PartialOrd, Ord)]
pub enum Value {
    /// A signed integer.
    Integer(i64),
    /// A boolean.
    Boolean(bool),
    /// A text.
    Text(&'static str),
}

/// The kind of a value.
pub open spec fn kind_of(v: Value) -> ValueKind {
    match v {
        Value::Integer(_) => ValueKind::Integer,
        Value::Boolean(_) => ValueKind::Boolean,
        Value::Text(_) => ValueKind::Text,
    }
}

impl Value {
    /// Returns the kind of this value.
    pub fn kind(&self) -> (k: ValueKind)
        ensures
            k == kind_of(*self),
    {
        match self {
            Value::Integer(_) => ValueKind::Integer,
            Value::Boolean(_) => ValueKind::Boolean,
            Value::Text(_) => ValueKind::Text,
        }
    }
}

} // verus!
