//! The connection façade: the one place where SQL reaches the storage engine.

use vstd::prelude::*;

use crate::error::Error;
use crate::value::Value;

verus! {

#[verifier::external_type_specification]
#[verifier::external_body]
pub struct ExNativeConnection(rusqlite::Connection);

#[verifier::external_type_specification]
#[verifier::external_body]
pub struct ExNativeStatement<'conn>(rusqlite::Statement<'conn>);

/// Relies on `rusqlite::Connection::open`: opens or creates the database at
/// `path`; an error becomes its `Display` text.
#[verifier::external_body]
fn open_native(path: &str) -> (r: Result<rusqlite::Connection, String>) {
    rusqlite::Connection::open(path).map_err(|e| e.to_string())
}

/// Relies on `rusqlite::Connection::prepare`: compiles one statement; an error
/// becomes its `Display` text.
#[verifier::external_body]
fn prepare_native<'c>(conn: &'c rusqlite::Connection, sql: &str) -> (r: Result<
    rusqlite::Statement<'c>,
    String,
>) {
    conn.prepare(sql).map_err(|e| e.to_string())
}

/// Relies on `rusqlite::Statement::raw_bind_parameter`: binds `NULL` at a one-based index.
#[verifier::external_body]
fn bind_null(stmt: &mut rusqlite::Statement, index: usize) -> (r: Result<(), String>) {
    stmt.raw_bind_parameter(index, rusqlite::types::Null).map_err(|e| e.to_string())
}

/// Relies on `rusqlite::Statement::raw_bind_parameter`: binds an integer at a one-based index.
#[verifier::external_body]
fn bind_integer(stmt: &mut rusqlite::Statement, index: usize, v: i64) -> (r: Result<
    (),
    String,
>) {
    stmt.raw_bind_parameter(index, v).map_err(|e| e.to_string())
}

/// Relies on `rusqlite::Statement::raw_bind_parameter`: binds a text at a one-based index.
#[verifier::external_body]
fn bind_text(stmt: &mut rusqlite::Statement, index: usize, v: &str) -> (r: Result<
    (),
    String,
>) {
    stmt.raw_bind_parameter(index, v).map_err(|e| e.to_string())
}

/// Relies on `rusqlite::Statement::raw_execute`: runs a statement whose
/// parameters were bound one by one; an error becomes its `Display` text.
#[verifier::external_body]
fn execute_bound(stmt: &mut rusqlite::Statement) -> (r: Result<usize, String>) {
    stmt.raw_execute().map_err(|e| e.to_string())
}

/// One statement handed to the storage engine.
pub struct Issued {
    /// The SQL text.
    pub sql: Seq<char>,
    /// The positional parameters, `?1` first.
    pub params: Seq<Value>,
    /// Whether the engine compiled the statement; when it did not, nothing
    /// was bound or executed.
    pub prepared: bool,
    /// Whether the engine carried it out.
    pub accepted: bool,
}

/// How the result `r` of sending a statement reports its record `last`:
/// success exactly when the engine carried it out, which it can only do
/// once it compiled it; `StatementError` exactly when compiling failed;
/// `InsertError` exactly when binding or execution failed afterwards.
pub open spec fn reported(r: Result<usize, Error>, last: Issued) -> bool {
    &&& last.accepted == (r is Ok)
    &&& last.accepted ==> last.prepared
    &&& (r is Err && r->Err_0 is StatementError) <==> !last.prepared
    &&& (r is Err && r->Err_0 is InsertError) <==> (last.prepared && !last.accepted)
}

/// An open database, with a record of every statement sent through it.
pub struct Store {
    handle: rusqlite::Connection,
    issued: Ghost<Seq<Issued>>,
}

impl Store {
    /// The statements sent through this store's own methods, oldest first.
    /// SQL run directly on [`Store::handle`] is not recorded.
    pub closed spec fn history(&self) -> Seq<Issued> {
        self.issued@
    }

    /// Opens (creating if needed) the database at `path`; `":memory:"` opens
    /// a fresh in-memory database.
    pub fn open(path: &str) -> (r: Result<Store, Error>)
        ensures
            r is Ok ==> r->Ok_0.history() == Seq::<Issued>::empty(),
            r is Err ==> r->Err_0 is OpenError,
    {
        match open_native(path) {
            Ok(handle) => Ok(Store { handle, issued: Ghost(Seq::empty()) }),
            Err(e) => Err(Error::OpenError(e)),
        }
    }

    /// The engine's own handle, for reading the database. Statements run on
    /// it do not appear in [`Store::history`].
    pub fn handle(&self) -> &rusqlite::Connection {
        &self.handle
    }

    /// Prepares and executes one statement without parameters, returning the
    /// number of rows it changed or the engine's error message.
    pub fn execute(&mut self, sql: &str) -> (r: Result<usize, String>)
        ensures
            final(self).history() == old(self).history().push(
                Issued {
                    sql: sql@,
                    params: Seq::empty(),
                    prepared: final(self).history().last().prepared,
                    accepted: r is Ok,
                },
            ),
            r is Ok ==> final(self).history().last().prepared,
    {
        let (r, prepared) = self.prepare_and_execute(sql);
        self.issued = Ghost(
            self.issued@.push(
                Issued { sql: sql@, params: Seq::empty(), prepared, accepted: r is Ok },
            ),
        );
        r
    }

    fn prepare_and_execute(&self, sql: &str) -> (r: (Result<usize, String>, bool))
        ensures
            r.0 is Ok ==> r.1,
    {
        let mut stmt = match prepare_native(&self.handle, sql) {
            Ok(s) => s,
            Err(e) => {
                return (Err(e), false);
            },
        };
        (execute_bound(&mut stmt), true)
    }

    /// Prepares `sql`, binds `params` to `?1..?n` in order and executes it.
    ///
    /// Fails with `StatementError` exactly when the statement cannot be
    /// prepared, in which case nothing is bound or executed, and with
    /// `InsertError` exactly when binding or execution fails after that.
    pub fn execute_insert(&mut self, sql: &str, params: &Vec<Value>) -> (r: Result<usize, Error>)
        ensures
            final(self).history() == old(self).history().push(
                Issued {
                    sql: sql@,
                    params: params@,
                    prepared: final(self).history().last().prepared,
                    accepted: r is Ok,
                },
            ),
            reported(r, final(self).history().last()),
    {
        let (r, prepared) = self.prepare_and_run(sql, params);
        self.issued = Ghost(
            self.issued@.push(Issued { sql: sql@, params: params@, prepared, accepted: r is Ok }),
        );
        r
    }

    fn prepare_and_run(&self, sql: &str, params: &Vec<Value>) -> (r: (Result<usize, Error>, bool))
        ensures
            r.0 is Ok ==> r.1,
            (r.0 is Err && r.0->Err_0 is StatementError) <==> !r.1,
            (r.0 is Err && r.0->Err_0 is InsertError) <==> (r.1 && r.0 is Err),
    {
        let mut stmt = match prepare_native(&self.handle, sql) {
            Ok(s) => s,
            Err(e) => {
                return (Err(Error::StatementError(e)), false);
            },
        };
        let mut i: usize = 0;
        while i < params.len()
            invariant
                i <= params.len(),
            decreases params.len() - i,
        {
            let bound = match &params[i] {
                Value::Null => bind_null(&mut stmt, i + 1),
                Value::Integer(v) => bind_integer(&mut stmt, i + 1, *v),
                Value::Text(s) => bind_text(&mut stmt, i + 1, s.as_str()),
            };
            if let Err(e) = bound {
                return (Err(Error::InsertError(e)), true);
            }
            i += 1;
        }
        match execute_bound(&mut stmt) {
            Ok(n) => (Ok(n), true),
            Err(e) => (Err(Error::InsertError(e)), true),
        }
    }
}

} // verus!
