//! The execution of one statement, as a machine that the caller drives. The
//! machine decides; the caller does the work that takes time: it asks the
//! store of saved servers, runs the handshake, runs the statement, and hands
//! each outcome back as an event. Every step is one short visit to the
//! registry, so the caller holds the registry's lock for the step and for
//! nothing else.
//!
//! Between two steps other executions may visit the registry. The protocol
//! does not close that window: two first callers of one key may both find it
//! absent and both connect, and an ensured connection may be gone at checkout.

use crate::connect::{connect_params, effective_database, params_for, resolve, ConnectParams};
use crate::error::ExecutionError;
use crate::models::PostgreServer;
use crate::registry::{
    cached, with, with_if_absent, without, Cache, ConnectionKey, Registry,
};
use crate::rows::{normalize, normalized, rows_view, NormalizedRow, RawResult};
use vstd::prelude::*;

verus! {

/// Where the work of ensuring a connection stands.
#[derive(Debug)]
pub enum ConnectStage {
    /// Nothing has happened yet.
    Idle,
    /// The store of saved servers has been asked for the server.
    AwaitingServer,
    /// A handshake for the key is running.
    Connecting { key: ConnectionKey },
    /// A connection for the key was cached when last looked at.
    Ensured { key: ConnectionKey },
    /// The work has failed.
    Failed,
}

/// The state of ensuring a connection for one request.
#[derive(Debug)]
pub struct ConnectState {
    pub server_id: i32,
    pub database_name: Option<String>,
    pub stage: ConnectStage,
}

/// What the caller reports while a connection is being ensured.
#[derive(Debug)]
pub enum ConnectEvent<C> {
    /// The request begins.
    Start,
    /// The store's answer: the saved server, or `None` where it has none
    /// under the id.
    ServerLoaded(Option<PostgreServer>),
    /// The outcome of the handshake: the new connection, or the cause of the
    /// failure.
    Connected(Result<C, String>),
}

/// What the caller is to do next while a connection is being ensured.
#[derive(Debug)]
pub enum ConnectAction {
    /// Ask the store of saved servers for this server.
    LoadServer { server_id: i32 },
    /// Run a handshake with these parameters, off the registry's lock.
    Connect(ConnectParams),
    /// The work is over: a connection is cached under the key, or it failed.
    Done(Result<ConnectionKey, ExecutionError>),
}

/// Whether a stage is `Connecting` for the given server and database.
pub open spec fn is_connecting(stage: ConnectStage, server_id: i32, database: Seq<char>) -> bool {
    stage matches ConnectStage::Connecting { key } && key.server_id == server_id
        && key.database_name@ == database
}

/// Whether a stage is `Ensured` for the given server and database.
pub open spec fn is_ensured(stage: ConnectStage, server_id: i32, database: Seq<char>) -> bool {
    stage matches ConnectStage::Ensured { key } && key.server_id == server_id
        && key.database_name@ == database
}

/// Whether an action reports that a connection is cached for the given server
/// and database.
pub open spec fn done_for(action: ConnectAction, server_id: i32, database: Seq<char>) -> bool {
    action matches ConnectAction::Done(Ok(key)) && key.server_id == server_id
        && key.database_name@ == database
}

/// One step of ensuring a connection: from the registry's content, the state
/// and the event to the registry's new content, the next state and the
/// action.
pub open spec fn connect_step<C>(
    before: Cache<C>,
    state: ConnectState,
    event: ConnectEvent<C>,
    after: Cache<C>,
    next: ConnectState,
    action: ConnectAction,
) -> bool {
    &&& next.server_id == state.server_id
    &&& next.database_name == state.database_name
    &&& match (state.stage, event) {
        (ConnectStage::Idle, ConnectEvent::Start) => {
            &&& after == before
            &&& next.stage == ConnectStage::AwaitingServer
            &&& action == (ConnectAction::LoadServer { server_id: state.server_id })
        },
        (ConnectStage::AwaitingServer, ConnectEvent::ServerLoaded(None)) => {
            &&& after == before
            &&& next.stage == ConnectStage::Failed
            &&& action == ConnectAction::Done(
                Err(ExecutionError::ConfigNotFound { server_id: state.server_id }),
            )
        },
        (ConnectStage::AwaitingServer, ConnectEvent::ServerLoaded(Some(server))) => {
            let database = effective_database(state.database_name, server.default_database);
            &&& after == before
            &&& if cached(before, state.server_id, database).is_some() {
                &&& is_ensured(next.stage, state.server_id, database)
                &&& done_for(action, state.server_id, database)
            } else {
                &&& is_connecting(next.stage, state.server_id, database)
                &&& action matches ConnectAction::Connect(params)
                &&& params_for(params, server, database)
            }
        },
        (ConnectStage::Connecting { key }, ConnectEvent::Connected(Ok(connection))) => {
            &&& after == with_if_absent(before, key.server_id, key.database_name@, connection)
            &&& is_ensured(next.stage, key.server_id, key.database_name@)
            &&& done_for(action, key.server_id, key.database_name@)
        },
        (ConnectStage::Connecting { key }, ConnectEvent::Connected(Err(cause))) => {
            &&& after == before
            &&& next.stage == ConnectStage::Failed
            &&& action == ConnectAction::Done(Err(ExecutionError::ConnectError { cause }))
        },
        _ => {
            &&& after == before
            &&& next.stage == ConnectStage::Failed
            &&& action == ConnectAction::Done(Err(ExecutionError::InternalInvariantViolation))
        },
    }
}

impl ConnectState {
    /// The state of a request that has not begun.
    pub fn new(server_id: i32, database_name: Option<String>) -> (state: ConnectState)
        ensures
            state == (ConnectState { server_id, database_name, stage: ConnectStage::Idle }),
    {
        ConnectState { server_id, database_name, stage: ConnectStage::Idle }
    }
}

fn refuse_connect(server_id: i32, database_name: Option<String>) -> (out: (
    ConnectState,
    ConnectAction,
))
    ensures
        out.0 == (ConnectState { server_id, database_name, stage: ConnectStage::Failed }),
        out.1 == ConnectAction::Done(Err(ExecutionError::InternalInvariantViolation)),
{
    (
        ConnectState { server_id, database_name, stage: ConnectStage::Failed },
        ConnectAction::Done(Err(ExecutionError::InternalInvariantViolation)),
    )
}

/// Gets, or has the caller create, the connection for a server and database.
///
/// The first event is `Start`. The saved server is looked up even where the
/// caller names a database. If a connection is cached under the resolved key
/// nothing more is done; else the caller runs the handshake, and the new
/// connection is stored only if the key is still without one: a connection
/// that another caller stored in the meantime stays, and the new one is
/// dropped. An event that the stage does not expect fails the work with
/// `InternalInvariantViolation` and leaves the registry as it is.
pub fn connect<C>(
    registry: &mut Registry<C>,
    state: ConnectState,
    event: ConnectEvent<C>,
) -> (out: (ConnectState, ConnectAction))
    ensures
        connect_step(old(registry)@, state, event, final(registry)@, out.0, out.1),
{
    let ConnectState { server_id, database_name, stage } = state;
    match stage {
        ConnectStage::Idle => match event {
            ConnectEvent::Start => (
                ConnectState { server_id, database_name, stage: ConnectStage::AwaitingServer },
                ConnectAction::LoadServer { server_id },
            ),
            _ => refuse_connect(server_id, database_name),
        },
        ConnectStage::AwaitingServer => match event {
            ConnectEvent::ServerLoaded(server) => {
                match resolve(server_id, database_name.clone(), server.as_ref()) {
                    Err(error) => (
                        ConnectState { server_id, database_name, stage: ConnectStage::Failed },
                        ConnectAction::Done(Err(error)),
                    ),
                    Ok(key) => {
                        if registry.contains(&key) {
                            let ensured = key.duplicate();
                            (
                                ConnectState {
                                    server_id,
                                    database_name,
                                    stage: ConnectStage::Ensured { key },
                                },
                                ConnectAction::Done(Ok(ensured)),
                            )
                        } else {
                            let saved = server.unwrap();
                            let params = connect_params(&saved, key.database_name.as_str());
                            (
                                ConnectState {
                                    server_id,
                                    database_name,
                                    stage: ConnectStage::Connecting { key },
                                },
                                ConnectAction::Connect(params),
                            )
                        }
                    },
                }
            },
            _ => refuse_connect(server_id, database_name),
        },
        ConnectStage::Connecting { key } => match event {
            ConnectEvent::Connected(Ok(connection)) => {
                let _ = registry.insert_if_absent(&key, connection);
                let ensured = key.duplicate();
                (
                    ConnectState { server_id, database_name, stage: ConnectStage::Ensured { key } },
                    ConnectAction::Done(Ok(ensured)),
                )
            },
            ConnectEvent::Connected(Err(cause)) => (
                ConnectState { server_id, database_name, stage: ConnectStage::Failed },
                ConnectAction::Done(Err(ExecutionError::ConnectError { cause })),
            ),
            _ => refuse_connect(server_id, database_name),
        },
        _ => refuse_connect(server_id, database_name),
    }
}

/// Where the execution of one statement stands.
#[derive(Debug)]
pub enum QueryStage {
    /// Not begun, or a connection is being ensured.
    Ensuring(ConnectState),
    /// A connection for the key was cached when last looked at; the checkout
    /// comes next.
    Ensured { key: ConnectionKey },
    /// The key's connection is checked out and the statement is running.
    Executing { key: ConnectionKey },
    /// The statement has run and its rows are delivered.
    CheckedIn,
    /// The execution has failed.
    Failed,
}

/// The state of the execution of one statement.
#[derive(Debug)]
pub struct QueryState {
    pub sql: String,
    pub stage: QueryStage,
}

/// What the caller reports during the execution of a statement.
#[derive(Debug)]
pub enum QueryEvent<C> {
    /// The request begins.
    Start,
    /// The store's answer: the saved server, or `None` where it has none
    /// under the id.
    ServerLoaded(Option<PostgreServer>),
    /// The outcome of the handshake.
    Connected(Result<C, String>),
    /// The caller is back at the registry after `Checkout`.
    Proceed,
    /// The statement has run. `connection` is the handle that was handed out
    /// with `Run`, or `None` where the worker lost it; `outcome` is what the
    /// backend returned, or its message where the statement failed.
    Ran { connection: Option<C>, outcome: Result<RawResult, String> },
}

/// What the caller is to do next during the execution of a statement.
#[derive(Debug)]
pub enum QueryAction<C> {
    /// Ask the store of saved servers for this server.
    LoadServer { server_id: i32 },
    /// Run a handshake with these parameters, off the registry's lock.
    Connect(ConnectParams),
    /// Leave the registry and come back with `Proceed`.
    Checkout,
    /// Run the statement on this connection, on a worker that may block, and
    /// hand the connection back with the outcome.
    Run { connection: C, sql: String },
    /// The execution is over: the rows, or the failure.
    Finish(Result<Vec<NormalizedRow>, ExecutionError>),
}

/// The event of ensuring a connection that an event of an execution stands
/// for, if it stands for one.
pub open spec fn as_connect_event<C>(event: QueryEvent<C>) -> Option<ConnectEvent<C>> {
    match event {
        QueryEvent::Start => Some(ConnectEvent::Start),
        QueryEvent::ServerLoaded(server) => Some(ConnectEvent::ServerLoaded(server)),
        QueryEvent::Connected(outcome) => Some(ConnectEvent::Connected(outcome)),
        _ => None,
    }
}

/// How an execution goes on after one step of ensuring its connection.
pub open spec fn after_connect_step<C>(
    inner: ConnectState,
    outcome: ConnectAction,
    stage: QueryStage,
    action: QueryAction<C>,
) -> bool {
    match outcome {
        ConnectAction::LoadServer { server_id } => {
            &&& stage == QueryStage::Ensuring(inner)
            &&& action == (QueryAction::<C>::LoadServer { server_id })
        },
        ConnectAction::Connect(params) => {
            &&& stage == QueryStage::Ensuring(inner)
            &&& action == QueryAction::<C>::Connect(params)
        },
        ConnectAction::Done(Ok(ensured)) => {
            &&& stage matches QueryStage::Ensured { key }
            &&& key.same_as(ensured)
            &&& action == QueryAction::<C>::Checkout
        },
        ConnectAction::Done(Err(error)) => {
            &&& stage == QueryStage::Failed
            &&& action == QueryAction::<C>::Finish(Err(error))
        },
    }
}

/// Whether an execution has gone on by one step of ensuring its connection:
/// some step of `connect` from the inner state under the event leads to the
/// new content of the registry, and the execution goes on as that step's
/// action says.
pub open spec fn ensured_by<C>(
    before: Cache<C>,
    inner: ConnectState,
    event: ConnectEvent<C>,
    after: Cache<C>,
    stage: QueryStage,
    action: QueryAction<C>,
) -> bool {
    exists|inner_next: ConnectState, outcome: ConnectAction|
        {
            &&& #[trigger] connect_step(before, inner, event, after, inner_next, outcome)
            &&& after_connect_step(inner_next, outcome, stage, action)
        }
}

/// The step that an unexpected event causes: the execution fails and the
/// registry stays as it is.
pub open spec fn query_rejected<C>(
    before: Cache<C>,
    after: Cache<C>,
    next: QueryState,
    action: QueryAction<C>,
) -> bool {
    &&& after == before
    &&& next.stage == QueryStage::Failed
    &&& action == QueryAction::<C>::Finish(Err(ExecutionError::InternalInvariantViolation))
}

/// One step of the execution of a statement: from the registry's content, the
/// state and the event to the registry's new content, the next state and the
/// action.
pub open spec fn query_step<C>(
    before: Cache<C>,
    state: QueryState,
    event: QueryEvent<C>,
    after: Cache<C>,
    next: QueryState,
    action: QueryAction<C>,
) -> bool {
    &&& next.sql == state.sql
    &&& match state.stage {
        QueryStage::Ensuring(inner) => match as_connect_event(event) {
            Some(inner_event) => ensured_by(
                before,
                inner,
                inner_event,
                after,
                next.stage,
                action,
            ),
            None => query_rejected(before, after, next, action),
        },
        QueryStage::Ensured { key } => match event {
            QueryEvent::Proceed => match cached(before, key.server_id, key.database_name@) {
                Some(connection) => {
                    &&& after == without(before, key.server_id, key.database_name@)
                    &&& next.stage matches QueryStage::Executing { key: held }
                    &&& held.same_as(key)
                    &&& action == (QueryAction::Run { connection, sql: state.sql })
                },
                None => query_rejected(before, after, next, action),
            },
            _ => query_rejected(before, after, next, action),
        },
        QueryStage::Executing { key } => match event {
            QueryEvent::Ran { connection, outcome } => {
                &&& after == match connection {
                    Some(handle) => with(before, key.server_id, key.database_name@, handle),
                    None => before,
                }
                &&& match outcome {
                    Ok(result) => {
                        &&& next.stage == QueryStage::CheckedIn
                        &&& action matches QueryAction::Finish(Ok(rows))
                        &&& rows_view(rows@) == normalized(result)
                    },
                    Err(backend_message) => {
                        &&& next.stage == QueryStage::Failed
                        &&& action == QueryAction::<C>::Finish(
                            Err(ExecutionError::QueryError { backend_message }),
                        )
                    },
                }
            },
            _ => query_rejected(before, after, next, action),
        },
        _ => query_rejected(before, after, next, action),
    }
}

impl QueryState {
    /// The state of an execution that has not begun.
    pub fn new(server_id: i32, sql: String, database_name: Option<String>) -> (state: QueryState)
        ensures
            state == (QueryState {
                sql,
                stage: QueryStage::Ensuring(
                    ConnectState { server_id, database_name, stage: ConnectStage::Idle },
                ),
            }),
    {
        QueryState { sql, stage: QueryStage::Ensuring(ConnectState::new(server_id, database_name)) }
    }
}

fn refuse_query<C>(sql: String) -> (out: (QueryState, QueryAction<C>))
    ensures
        out.0 == (QueryState { sql, stage: QueryStage::Failed }),
        out.1 == QueryAction::<C>::Finish(Err(ExecutionError::InternalInvariantViolation)),
{
    (
        QueryState { sql, stage: QueryStage::Failed },
        QueryAction::Finish(Err(ExecutionError::InternalInvariantViolation)),
    )
}

fn ensure_step<C>(
    registry: &mut Registry<C>,
    sql: String,
    inner: ConnectState,
    event: ConnectEvent<C>,
) -> (out: (QueryState, QueryAction<C>))
    ensures
        out.0.sql == sql,
        ensured_by(old(registry)@, inner, event, final(registry)@, out.0.stage, out.1),
{
    let (inner_next, outcome) = connect(registry, inner, event);
    let ghost kept = inner_next;
    let ghost given = outcome;
    let out = match outcome {
        ConnectAction::LoadServer { server_id } => (
            QueryState { sql, stage: QueryStage::Ensuring(inner_next) },
            QueryAction::LoadServer { server_id },
        ),
        ConnectAction::Connect(params) => (
            QueryState { sql, stage: QueryStage::Ensuring(inner_next) },
            QueryAction::Connect(params),
        ),
        ConnectAction::Done(Ok(key)) => (
            QueryState { sql, stage: QueryStage::Ensured { key } },
            QueryAction::Checkout,
        ),
        ConnectAction::Done(Err(error)) => (
            QueryState { sql, stage: QueryStage::Failed },
            QueryAction::Finish(Err(error)),
        ),
    };
    assert(connect_step(old(registry)@, inner, event, registry@, kept, given)
        && after_connect_step(kept, given, out.0.stage, out.1));
    out
}

/// Executes one statement against the connection of a server and database.
///
/// The first event is `Start`. The connection is ensured as `connect` does
/// it, then taken out of the registry for the time the statement runs, and
/// put back when the caller reports `Ran`, whether the statement succeeded or
/// failed, as long as the caller still has the handle. On success the rows
/// are normalized: each has one cell per declared result column, in declared
/// order. A statement that fails gives `QueryError` and no rows. A connection
/// that is gone at checkout gives `InternalInvariantViolation`, and so does
/// an event that the stage does not expect, which leaves the registry as it
/// is.
pub fn execute_query<C>(
    registry: &mut Registry<C>,
    state: QueryState,
    event: QueryEvent<C>,
) -> (out: (QueryState, QueryAction<C>))
    ensures
        query_step(old(registry)@, state, event, final(registry)@, out.0, out.1),
{
    let QueryState { sql, stage } = state;
    match stage {
        QueryStage::Ensuring(inner) => match event {
            QueryEvent::Start => ensure_step(registry, sql, inner, ConnectEvent::Start),
            QueryEvent::ServerLoaded(server) => ensure_step(
                registry,
                sql,
                inner,
                ConnectEvent::ServerLoaded(server),
            ),
            QueryEvent::Connected(outcome) => ensure_step(
                registry,
                sql,
                inner,
                ConnectEvent::Connected(outcome),
            ),
            _ => refuse_query(sql),
        },
        QueryStage::Ensured { key } => match event {
            QueryEvent::Proceed => match registry.checkout(&key) {
                Some(connection) => {
                    let statement = sql.clone();
                    (
                        QueryState { sql, stage: QueryStage::Executing { key } },
                        QueryAction::Run { connection, sql: statement },
                    )
                },
                None => refuse_query(sql),
            },
            _ => refuse_query(sql),
        },
        QueryStage::Executing { key } => match event {
            QueryEvent::Ran { connection, outcome } => {
                match connection {
                    Some(handle) => {
                        registry.checkin(&key, handle);
                    },
                    None => {},
                }
                match outcome {
                    Ok(result) => (
                        QueryState { sql, stage: QueryStage::CheckedIn },
                        QueryAction::Finish(Ok(normalize(&result))),
                    ),
                    Err(backend_message) => (
                        QueryState { sql, stage: QueryStage::Failed },
                        QueryAction::Finish(Err(ExecutionError::QueryError { backend_message })),
                    ),
                }
            },
            _ => refuse_query(sql),
        },
        _ => refuse_query(sql),
    }
}

} // verus!
