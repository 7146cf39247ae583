//! Errors reported by the library.

use vstd::prelude::*;

verus! {

/// Errors that can occur while describing, creating or filling a database.
///
/// The four engine errors carry the storage engine's own message.
#[derive(Debug)]
pub enum Error {
    /// The database could not be opened.
    OpenError(String),
    /// A `CREATE TABLE` statement failed; tables created before it remain.
    SchemaError(String),
    /// An `INSERT` statement could not be prepared.
    StatementError(String),
    /// A prepared `INSERT` statement failed to execute.
    InsertError(String),
    /// A field's declared type has no storage type; carries the field's name.
    UnsupportedFieldType(String),
    /// Two fields of one model share a name; carries the name.
    DuplicateColumn(String),
    /// Two models of one schema share a table name; carries the name.
    DuplicateTable(String),
    /// A value was supplied for a column the model does not have.
    UnknownColumn(String),
    /// A value does not suit its column: `NULL` for a column that is not
    /// nullable, or a value of the other storage type; carries the column's name.
    TypeMismatch(String),
    /// A record was finished before every mandatory column was supplied.
    IncompleteRecord,
    /// A record was inserted into a database whose schema lacks its model.
    SchemaMismatch,
}

impl Error {
    /// The human-readable text of an error.
    pub open spec fn text(&self) -> Seq<char> {
        match self {
            Error::OpenError(m) => "failed to open: "@ + m@,
            Error::SchemaError(m) => "failed to create schema: "@ + m@,
            Error::StatementError(m) => "failed to prepare statement: "@ + m@,
            Error::InsertError(m) => "failed to insert: "@ + m@,
            Error::UnsupportedFieldType(m) => "unsupported field type: "@ + m@,
            Error::DuplicateColumn(m) => "duplicate column: "@ + m@,
            Error::DuplicateTable(m) => "duplicate table: "@ + m@,
            Error::UnknownColumn(m) => "unknown column: "@ + m@,
            Error::TypeMismatch(m) => "value does not suit column: "@ + m@,
            Error::IncompleteRecord => "incomplete record: a mandatory column was not supplied"@,
            Error::SchemaMismatch => "the schema does not contain this model"@,
        }
    }

    /// Renders the error as text.
    pub fn message(&self) -> (r: String)
        ensures
            r@ == self.text(),
    {
        let (prefix, detail) = match self {
            Error::OpenError(m) => ("failed to open: ", m.as_str()),
            Error::SchemaError(m) => ("failed to create schema: ", m.as_str()),
            Error::StatementError(m) => ("failed to prepare statement: ", m.as_str()),
            Error::InsertError(m) => ("failed to insert: ", m.as_str()),
            Error::UnsupportedFieldType(m) => ("unsupported field type: ", m.as_str()),
            Error::DuplicateColumn(m) => ("duplicate column: ", m.as_str()),
            Error::DuplicateTable(m) => ("duplicate table: ", m.as_str()),
            Error::UnknownColumn(m) => ("unknown column: ", m.as_str()),
            Error::TypeMismatch(m) => ("value does not suit column: ", m.as_str()),
            Error::IncompleteRecord => {
                return String::from_str("incomplete record: a mandatory column was not supplied");
            },
            Error::SchemaMismatch => {
                return String::from_str("the schema does not contain this model");
            },
        };
        let mut r = String::from_str(prefix);
        r.append(detail);
        r
    }
}

} // verus!
