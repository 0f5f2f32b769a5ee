//! What a connection attempt needs, computed from a saved server: the
//! database to use, the key under which the connection is cached, the
//! parameters of the handshake, and connection strings.

use crate::error::ExecutionError;
use crate::models::{DatabaseConnection, PostgreServer, ServerInfo};
use crate::registry::ConnectionKey;
use crate::text::{decimal, decimal_text};
use vstd::prelude::*;
use vstd::string::StringExecFns;

verus! {

/// The port used where a saved port is not a port number.
pub const DEFAULT_PORT: u16 = 5432;

/// The seconds allowed for one handshake.
pub const CONNECT_TIMEOUT_SECS: u64 = 5;

/// The database a statement runs against: the one the caller names, else the
/// server's default, else `postgres`.
pub open spec fn effective_database(requested: Option<String>, default: Option<String>) -> Seq<
    char,
> {
    match requested {
        Some(name) => name@,
        None => match default {
            Some(name) => name@,
            None => "postgres"@,
        },
    }
}

/// The port of a handshake: the saved port where it is between 0 and 65535,
/// else 5432.
pub open spec fn effective_port(port: i32) -> u16 {
    if 0 <= port && port <= 65535 {
        port as u16
    } else {
        DEFAULT_PORT
    }
}

/// Picks the database for a statement.
pub fn database_for(requested: Option<String>, server: &PostgreServer) -> (name: String)
    ensures
        name@ == effective_database(requested, server.default_database),
{
    match requested {
        Some(name) => name,
        None => match &server.default_database {
            Some(name) => name.clone(),
            None => "postgres".to_owned(),
        },
    }
}

/// Whether `key` is what resolving a request gives: `ConfigNotFound` where
/// the store has no such server, and else the key of the server and of the
/// database that the statement runs against.
pub open spec fn resolved(
    server_id: i32,
    database_name: Option<String>,
    server: Option<&PostgreServer>,
    key: Result<ConnectionKey, ExecutionError>,
) -> bool {
    match server {
        None => key == Err::<ConnectionKey, ExecutionError>(
            ExecutionError::ConfigNotFound { server_id },
        ),
        Some(saved) => {
            &&& key matches Ok(found)
            &&& found.server_id == server_id
            &&& found.database_name@ == effective_database(database_name, saved.default_database)
        },
    }
}

/// Computes the key under which the connection for a request is cached.
/// `server` is what the store of saved servers answered for `server_id`:
/// `None` where it has no such server, which is `ConfigNotFound`.
pub fn resolve(
    server_id: i32,
    database_name: Option<String>,
    server: Option<&PostgreServer>,
) -> (key: Result<ConnectionKey, ExecutionError>)
    ensures
        resolved(server_id, database_name, server, key),
{
    match server {
        None => Err(ExecutionError::ConfigNotFound { server_id }),
        Some(saved) => Ok(
            ConnectionKey { server_id, database_name: database_for(database_name, saved) },
        ),
    }
}

/// The parameters of one handshake.
#[derive(Clone, Debug, PartialEq, Eq)]
pub struct ConnectParams {
    pub host: String,
    pub port: u16,
    pub user: String,
    pub password: String,
    pub dbname: String,
    pub connect_timeout_secs: u64,
}

/// Whether parameters are those of a handshake with `server` for `database`:
/// the server's host and login, its port or the default port, the database,
/// and the time limit.
pub open spec fn params_for(params: ConnectParams, server: PostgreServer, database: Seq<char>)
    -> bool {
    &&& params.host@ == server.host@
    &&& params.port == effective_port(server.port)
    &&& params.user@ == server.username@
    &&& params.password@ == server.password@
    &&& params.dbname@ == database
    &&& params.connect_timeout_secs == CONNECT_TIMEOUT_SECS
}

/// Prepares the handshake with a saved server for one database.
pub fn connect_params(server: &PostgreServer, db_name: &str) -> (params: ConnectParams)
    ensures
        params_for(params, *server, db_name@),
{
    let port: u16 = if 0 <= server.port && server.port <= 65535 {
        server.port as u16
    } else {
        DEFAULT_PORT
    };
    ConnectParams {
        host: server.host.clone(),
        port,
        user: server.username.clone(),
        password: server.password.clone(),
        dbname: db_name.to_owned(),
        connect_timeout_secs: CONNECT_TIMEOUT_SECS,
    }
}

/// The connection string for a server, without a database.
pub open spec fn server_string(host: Seq<char>, port: int, user: Seq<char>, password: Seq<char>)
    -> Seq<char> {
    "host="@ + host + " port="@ + decimal(port) + " user="@ + user + " password="@ + password
}

/// Writes the connection string of a saved server:
/// `host=.. port=.. user=.. password=..`.
pub fn server_connection_string(server: &ServerInfo) -> (text: String)
    ensures
        text@ == server_string(
            server.host@,
            server.port as int,
            server.username@,
            server.password@,
        ),
{
    let mut text = "host=".to_owned();
    text.append(server.host.as_str());
    text.append(" port=");
    text.append(decimal_text(server.port as i64).as_str());
    text.append(" user=");
    text.append(server.username.as_str());
    text.append(" password=");
    text.append(server.password.as_str());
    text
}

/// Writes the connection string for one database:
/// `host=.. port=.. user=.. password=.. dbname=..`.
pub fn connection_string(details: &DatabaseConnection) -> (text: String)
    ensures
        text@ == server_string(
            details.host@,
            details.port as int,
            details.username@,
            details.password@,
        ) + " dbname="@ + details.database_name@,
{
    let mut text = "host=".to_owned();
    text.append(details.host.as_str());
    text.append(" port=");
    text.append(decimal_text(details.port as i64).as_str());
    text.append(" user=");
    text.append(details.username.as_str());
    text.append(" password=");
    text.append(details.password.as_str());
    text.append(" dbname=");
    text.append(details.database_name.as_str());
    text
}

} // verus!
