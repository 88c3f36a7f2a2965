//! Errors of builder operations.
use vstd::prelude::*;
use vstd::string::StringExecFns;
use crate::lookup::error_is_not_found;

verus! {

/// The error of a database operation, as the database layer reports it.
#[verifier::external_type_specification]
#[verifier::external_body]
pub struct ExDieselError(diesel::result::Error);

/// A value refused by the validation rule of a column.
#[derive(Clone, Copy, Debug, PartialEq, Eq, Hash)]
pub struct ValidationError {
    /// The table of the column.
    pub table_name: &'static str,
    /// The name of the column.
    pub column_name: &'static str,
}

/// Specific error indicating that not all mandatory builder fields have
/// been set.
#[derive(Clone, Copy, Debug, PartialEq, Eq, Hash)]
pub enum IncompleteBuilderError {
    /// Not all mandatory associated builders have been set.
    MissingMandatoryTriangularField {
        /// The table of the missing column.
        table_name: &'static str,
        /// The name of the missing column.
        field_name: &'static str,
    },
    /// A field required for insertion is missing.
    MissingMandatoryField {
        /// The table of the missing column.
        table_name: &'static str,
        /// The name of the missing field.
        field_name: &'static str,
    },
}

/// The text `prefix`, then `` `table.field` ``.
pub open spec fn qualified_text(prefix: Seq<char>, table: Seq<char>, field: Seq<char>) -> Seq<char> {
    prefix + "`"@ + table + "."@ + field + "`"@
}

/// Returns `prefix`, then `` `table.field` ``.
fn qualified_message(prefix: &str, table: &str, field: &str) -> (r: String)
    ensures
        r@ == qualified_text(prefix@, table@, field@),
{
    let mut out = String::from_str(prefix);
    out.append("`");
    out.append(table);
    out.append(".");
    out.append(field);
    out.append("`");
    out
}

impl IncompleteBuilderError {
    /// The table of the missing column.
    pub open spec fn spec_table(self) -> &'static str {
        match self {
            IncompleteBuilderError::MissingMandatoryTriangularField { table_name, .. } => table_name,
            IncompleteBuilderError::MissingMandatoryField { table_name, .. } => table_name,
        }
    }

    /// The name of the missing column.
    pub open spec fn spec_field(self) -> &'static str {
        match self {
            IncompleteBuilderError::MissingMandatoryTriangularField { field_name, .. } => field_name,
            IncompleteBuilderError::MissingMandatoryField { field_name, .. } => field_name,
        }
    }

    /// The primary human-readable error message.
    pub fn message(&self) -> (r: &'static str)
        ensures
            r@ == (match self {
                IncompleteBuilderError::MissingMandatoryTriangularField { .. } =>
                    "Missing mandatory triangular builder field"@,
                IncompleteBuilderError::MissingMandatoryField { .. } => "Missing mandatory field"@,
            }),
    {
        match self {
            IncompleteBuilderError::MissingMandatoryTriangularField { .. } => {
                "Missing mandatory triangular builder field"
            },
            IncompleteBuilderError::MissingMandatoryField { .. } => "Missing mandatory field",
        }
    }

    /// Additional details: there are none.
    pub fn details(&self) -> (r: Option<&'static str>)
        ensures
            r is None,
    {
        None
    }

    /// A hint to fix the problem: there is none.
    pub fn hint(&self) -> (r: Option<&'static str>)
        ensures
            r is None,
    {
        None
    }

    /// The table of the missing column.
    pub fn table_name(&self) -> (r: Option<&'static str>)
        ensures
            r == Some(self.spec_table()),
    {
        match self {
            IncompleteBuilderError::MissingMandatoryTriangularField { table_name, .. } => Some(
                *table_name,
            ),
            IncompleteBuilderError::MissingMandatoryField { table_name, .. } => Some(*table_name),
        }
    }

    /// The name of the missing column.
    pub fn column_name(&self) -> (r: Option<&'static str>)
        ensures
            r == Some(self.spec_field()),
    {
        match self {
            IncompleteBuilderError::MissingMandatoryTriangularField { field_name, .. } => Some(
                *field_name,
            ),
            IncompleteBuilderError::MissingMandatoryField { field_name, .. } => Some(*field_name),
        }
    }

    /// The violated constraint: none is named.
    pub fn constraint_name(&self) -> (r: Option<&'static str>)
        ensures
            r is None,
    {
        None
    }

    /// The position in the statement: none is known.
    pub fn statement_position(&self) -> (r: Option<i32>)
        ensures
            r is None,
    {
        None
    }

    /// The full description of the error, naming the missing column.
    pub fn to_text(&self) -> (r: String)
        ensures
            r@ == (match self {
                IncompleteBuilderError::MissingMandatoryTriangularField { table_name, field_name } =>
                    qualified_text("Missing mandatory triangular builder field: "@, table_name@, field_name@),
                IncompleteBuilderError::MissingMandatoryField { table_name, field_name } =>
                    qualified_text("Missing mandatory field: "@, table_name@, field_name@),
            }),
    {
        match self {
            IncompleteBuilderError::MissingMandatoryTriangularField { table_name, field_name } => {
                qualified_message("Missing mandatory triangular builder field: ", table_name, field_name)
            },
            IncompleteBuilderError::MissingMandatoryField { table_name, field_name } => {
                qualified_message("Missing mandatory field: ", table_name, field_name)
            },
        }
    }
}

impl ValidationError {
    /// The primary human-readable error message.
    pub fn message(&self) -> (r: &'static str)
        ensures
            r@ == "Value refused by the column's validation rule"@,
    {
        "Value refused by the column's validation rule"
    }

    /// The full description of the error: the refused column, as
    /// `` `table.column` ``.
    pub fn to_text(&self) -> (r: String)
        ensures
            r@ == qualified_text(""@, self.table_name@, self.column_name@),
    {
        qualified_message("", self.table_name, self.column_name)
    }
}

/// Specific error indicating that a dynamic column operation has failed.
#[derive(Clone, Copy, Debug)]
pub enum DynamicColumnError {
    /// The specified column is not part of the table, or has another type.
    UnknownColumn {
        /// The table of the unknown column.
        table_name: &'static str,
        /// The name of the unknown column.
        column_name: &'static str,
    },
    /// Validation error when setting the column.
    Validation(ValidationError),
}

impl DynamicColumnError {
    /// The full description of the error.
    pub fn to_text(&self) -> (r: String)
        ensures
            r@ == (match self {
                DynamicColumnError::UnknownColumn { table_name, column_name } =>
                    qualified_text("Unknown column: "@, table_name@, column_name@),
                DynamicColumnError::Validation(e) =>
                    qualified_text("Validation error: "@, e.table_name@, e.column_name@),
            }),
    {
        match self {
            DynamicColumnError::UnknownColumn { table_name, column_name } => {
                qualified_message("Unknown column: ", table_name, column_name)
            },
            DynamicColumnError::Validation(e) => {
                qualified_message("Validation error: ", e.table_name, e.column_name)
            },
        }
    }
}

/// Error type for builder operations.
pub enum BuilderError<E> {
    /// A database error.
    Diesel(diesel::result::Error),
    /// Missing mandatory builder fields.
    Incomplete(IncompleteBuilderError),
    /// Underlying validation error.
    Validation(E),
}

impl<E> From<diesel::result::Error> for BuilderError<E> {
    fn from(error: diesel::result::Error) -> (r: Self) {
        BuilderError::Diesel(error)
    }
}

impl<E> vstd::std_specs::convert::FromSpecImpl<diesel::result::Error> for BuilderError<E> {
    open spec fn obeys_from_spec() -> bool {
        true
    }

    open spec fn from_spec(error: diesel::result::Error) -> Self {
        BuilderError::Diesel(error)
    }
}

impl<E> From<IncompleteBuilderError> for BuilderError<E> {
    fn from(error: IncompleteBuilderError) -> (r: Self) {
        BuilderError::Incomplete(error)
    }
}

impl<E> vstd::std_specs::convert::FromSpecImpl<IncompleteBuilderError> for BuilderError<E> {
    open spec fn obeys_from_spec() -> bool {
        true
    }

    open spec fn from_spec(error: IncompleteBuilderError) -> Self {
        BuilderError::Incomplete(error)
    }
}

/// The text diesel's `Display` writes for a database error.
pub uninterp spec fn diesel_error_text(e: diesel::result::Error) -> Seq<char>;

/// Calls `to_string` on a diesel error, which writes it through diesel's
/// `Display`: a fixed text for most variants (`Record not found` for
/// `NotFound`), the message of the database for a database error, and the
/// inner error's text for the variants that box one. Only the text of
/// `NotFound` is stated; the others are named.
#[verifier::external_body]
fn diesel_text(e: &diesel::result::Error) -> (r: String)
    ensures
        r@ == diesel_error_text(*e),
        error_is_not_found(*e) ==> r@ == "Record not found"@,
{
    e.to_string()
}

/// The description of a database error: its text after `Diesel error: `.
pub fn diesel_error_description(e: &diesel::result::Error) -> (r: String)
    ensures
        r@ == "Diesel error: "@ + diesel_error_text(*e),
{
    let inner = diesel_text(e);
    let mut out = String::from_str("Diesel error: ");
    out.append(inner.as_str());
    out
}

impl BuilderError<ValidationError> {
    /// The full description of the error: the database's text after
    /// `Diesel error: `, the text of the missing field, or the refused
    /// column after `Validation error: `.
    pub fn to_text(&self) -> (r: String)
        ensures
            r@ == (match self {
                BuilderError::Diesel(e) => "Diesel error: "@ + diesel_error_text(*e),
                BuilderError::Incomplete(IncompleteBuilderError::MissingMandatoryTriangularField {
                    table_name,
                    field_name,
                }) => qualified_text("Missing mandatory triangular builder field: "@, table_name@, field_name@),
                BuilderError::Incomplete(IncompleteBuilderError::MissingMandatoryField { table_name, field_name }) =>
                    qualified_text("Missing mandatory field: "@, table_name@, field_name@),
                BuilderError::Validation(e) =>
                    qualified_text("Validation error: "@, e.table_name@, e.column_name@),
            }),
    {
        match self {
            BuilderError::Diesel(e) => diesel_error_description(e),
            BuilderError::Incomplete(e) => e.to_text(),
            BuilderError::Validation(e) => qualified_message("Validation error: ", e.table_name, e.column_name),
        }
    }
}

/// A specialized `Result` type for builder operations.
pub type BuilderResult<T, E> = Result<T, BuilderError<E>>;

} // verus!
