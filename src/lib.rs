//! A typed data-definition and record-insertion layer over SQLite.
//!
//! Record types are described by [`column::FieldDecl`] values; from them the
//! library derives column metadata ([`column::ColumnDescriptor`]), table
//! descriptions ([`model::ModelDescriptor`]) and idempotent `CREATE TABLE`
//! statements. A [`schema::Schema`] orders the tables of one database and
//! creates them; a [`builder::InsertBuilder`] collects a record's values and
//! refuses to finish until every mandatory column has one; a
//! [`database::Database`] inserts finished records of the models its schema
//! admits. All SQL reaches the engine through [`connection::Store`].

pub mod builder;
pub mod column;
pub mod connection;
pub mod database;
pub mod error;
pub mod model;
pub mod query;
pub mod schema;
pub mod text;
pub mod value;
