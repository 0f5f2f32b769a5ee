//! Plain records: saved servers, connection details, and the catalog objects
//! of a PostgreSQL database.

use vstd::prelude::*;

verus! {

/// A database of a server.
#[derive(Clone, Debug, PartialEq, Eq)]
pub struct PostgreDatabase {
    pub datname: String,
}

/// A schema of a database.
#[derive(Clone, Debug, PartialEq, Eq)]
pub struct PostgreSchema {
    pub name: String,
}

/// A table or view as `information_schema.tables` lists it.
#[derive(Clone, Debug, PartialEq, Eq)]
pub struct PostgreTable {
    pub name: String,
    pub schema: String,
    pub table_type: String,
}

/// A column of a table.
#[derive(Clone, Debug, PartialEq, Eq)]
pub struct PostgreColumn {
    pub name: String,
    pub ordinal_position: i32,
    pub data_type: String,
    pub is_nullable: bool,
    pub column_default: Option<String>,
}

/// A trigger of a table.
#[derive(Clone, Debug, PartialEq, Eq)]
pub struct PostgreTrigger {
    pub schema_name: String,
    pub table_name: String,
    pub name: String,
    pub action_timing: String,
    pub events: Vec<String>,
    pub action_statement: String,
}

/// An index of a table.
#[derive(Clone, Debug, PartialEq, Eq)]
pub struct PostgreIndex {
    pub schema_name: String,
    pub table_name: String,
    pub name: String,
    pub index_def: String,
}

/// One column of a primary key.
#[derive(Clone, Debug, PartialEq, Eq)]
pub struct PostgrePrimaryKey {
    pub constraint_name: String,
    pub column_name: String,
    pub ordinal_position: i32,
}

/// One column of a foreign key.
#[derive(Clone, Debug, PartialEq, Eq)]
pub struct PostgreForeignKey {
    pub constraint_name: String,
    pub column_name: String,
    pub table_schema: String,
    pub table_name: String,
}

/// A view and its defining query.
#[derive(Clone, Debug, PartialEq, Eq)]
pub struct PostgreView {
    pub name: String,
    pub schema: String,
    pub definition: String,
}

/// A sequence generator.
#[derive(Clone, Debug, PartialEq, Eq)]
pub struct PostgreSequence {
    pub schema: String,
    pub name: String,
    pub data_type: String,
    pub start_value: i64,
    pub minimum_value: i64,
    pub maximum_value: i64,
    pub increment: i64,
    pub cycle_option: bool,
}

/// A saved server: where it is, how to log in, and the database to use when
/// a caller names none.
#[derive(Clone, Debug, PartialEq, Eq)]
pub struct PostgreServer {
    pub id: Option<i32>,
    pub name: String,
    pub host: String,
    pub port: i32,
    pub username: String,
    pub password: String,
    pub default_database: Option<String>,
    pub created_at: i64,
}

/// A saved server without a default database.
#[derive(Clone, Debug, PartialEq, Eq)]
pub struct ServerInfo {
    pub id: i32,
    pub name: String,
    pub host: String,
    pub port: i32,
    pub username: String,
    pub password: String,
}

/// The details of one connection to one database.
#[derive(Clone, Debug, PartialEq, Eq)]
pub struct DatabaseConnection {
    pub host: String,
    pub port: u16,
    pub username: String,
    pub password: String,
    pub database_name: String,
}

impl DatabaseConnection {
    /// Puts the details of a connection together.
    pub fn new(
        host: String,
        port: u16,
        username: String,
        password: String,
        database_name: String,
    ) -> (details: Self)
        ensures
            details == (DatabaseConnection { host, port, username, password, database_name }),
    {
        DatabaseConnection { host, port, username, password, database_name }
    }
}

} // verus!
