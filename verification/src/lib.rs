//! A query-execution layer for a database browser. Given a saved server and
//! a database, it caches, reuses and tears down live connections, runs one
//! statement at a time on the connection of that server and database, and
//! returns the rows in a form that does not depend on the backend.
//!
//! The library decides and computes; it does no input or output. The caller
//! holds the registry behind a lock, asks the store of saved servers, runs
//! the handshake and the statement, and reports each outcome to the machines
//! of [`pipeline`].

pub mod catalog;
pub mod connect;
pub mod error;
pub mod exclusive;
pub mod models;
pub mod pipeline;
pub mod registry;
pub mod rows;
pub mod text;
pub mod types;
pub mod value;
