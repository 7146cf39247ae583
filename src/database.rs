//! A database opened with a schema: the entry point for inserting records.

use vstd::prelude::*;

use crate::builder::{insert_sql, InsertStatement};
use crate::connection::{reported, Issued, Store};
use crate::error::Error;
use crate::schema::{create_statements, stops_at_first_failure, Schema, SchemaHas};

verus! {

/// An open database whose tables follow a schema.
pub struct Database {
    store: Store,
    schema: Schema,
}

impl Database {
    /// The schema the database was opened with.
    pub closed spec fn declared(&self) -> Schema {
        self.schema
    }

    /// The statements sent to the database since it was opened.
    pub closed spec fn history(&self) -> Seq<Issued> {
        self.store.history()
    }

    /// Opens the database at `path` and creates the schema's missing tables.
    ///
    /// Fails with `OpenError` when the database cannot be opened and with
    /// `SchemaError` when a table cannot be created.
    pub fn open(path: &str, schema: Schema) -> (r: Result<Database, Error>)
        ensures
            r is Ok ==> r->Ok_0.declared() == schema && stops_at_first_failure(
                create_statements(schema.members()),
                r->Ok_0.history(),
                true,
            ),
            r is Err ==> (r->Err_0 is OpenError || r->Err_0 is SchemaError),
    {
        let mut store = match Store::open(path) {
            Ok(s) => s,
            Err(e) => {
                return Err(e);
            },
        };
        match schema.create(&mut store) {
            Ok(()) => {},
            Err(e) => {
                return Err(e);
            },
        }
        proof {
            assert(store.history().skip(0) =~= store.history());
        }
        Ok(Database { store, schema })
    }

    /// The schema the database was opened with.
    pub fn schema(&self) -> (r: &Schema)
        ensures
            *r == self.declared(),
    {
        &self.schema
    }

    /// The store underneath, for reading the database.
    pub fn store(&self) -> (r: &Store)
        ensures
            r.history() == self.history(),
    {
        &self.store
    }

    /// Inserts a finished record.
    ///
    /// Fails with `SchemaMismatch`, sending nothing, when the schema does not
    /// admit the record's model; otherwise sends the record's `INSERT` with its
    /// values as parameters and returns the number of rows added. A statement
    /// that fails to prepare gives `StatementError` and is not executed; a
    /// failure to bind or execute it gives `InsertError`.
    pub fn insert(&mut self, record: &InsertStatement) -> (r: Result<usize, Error>)
        ensures
            final(self).declared() == old(self).declared(),
            !old(self).declared().admits(record.model()) ==> r == Err::<usize, Error>(
                Error::SchemaMismatch,
            ) && final(self).history() == old(self).history(),
            old(self).declared().admits(record.model()) ==> final(self).history() == old(
                self,
            ).history().push(
                Issued {
                    sql: insert_sql(record.model().table(), record.column_names()),
                    params: record.params(),
                    prepared: final(self).history().last().prepared,
                    accepted: r is Ok,
                },
            ) && reported(r, final(self).history().last()),
    {
        if !self.schema.has(record.model_descriptor()) {
            return Err(Error::SchemaMismatch);
        }
        let sql = record.sql();
        self.store.execute_insert(sql.as_str(), record.values())
    }
}

} // verus!
