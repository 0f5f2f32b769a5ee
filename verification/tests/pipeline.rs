use octapus_db::connect::ConnectParams;
use octapus_db::error::ExecutionError;
use octapus_db::models::PostgreServer;
use octapus_db::pipeline::{
    connect, execute_query, ConnectAction, ConnectEvent, ConnectStage, ConnectState, QueryAction,
    QueryEvent, QueryStage, QueryState,
};
use octapus_db::registry::{ConnectionKey, Registry};
use octapus_db::rows::{Column, NormalizedRow, RawResult};
use octapus_db::types::Backend;
use octapus_db::value::RawValue;

fn server(id: i32, default_database: Option<&str>) -> PostgreServer {
    PostgreServer {
        id: Some(id),
        name: "main".to_string(),
        host: "db.example".to_string(),
        port: 5433,
        username: "ann".to_string(),
        password: "secret".to_string(),
        default_database: default_database.map(|d| d.to_string()),
        created_at: 0,
    }
}

fn key(server_id: i32, database_name: &str) -> ConnectionKey {
    ConnectionKey { server_id, database_name: database_name.to_string() }
}

fn select_one() -> RawResult {
    RawResult {
        backend: Backend::Postgres,
        columns: vec![Column { name: "?column?".to_string(), typname: "int4".to_string() }],
        rows: vec![vec![RawValue::Integer(1)]],
    }
}

fn cells_of(row: &NormalizedRow) -> Vec<(String, Option<String>)> {
    row.cells.iter().map(|c| (c.name.clone(), c.value.clone())).collect()
}

/// What the world around one execution did, in order.
#[derive(Debug, PartialEq)]
enum Did {
    Loaded(i32),
    Connected(String),
    Ran(u32, String),
}

/// Drives one execution to its end against a store of one saved server, a
/// handshake that yields `new_handle`, and a backend that answers `outcome`.
fn run_to_end(
    registry: &mut Registry<u32>,
    saved: Option<PostgreServer>,
    new_handle: Result<u32, String>,
    outcome: Result<RawResult, String>,
    server_id: i32,
    database_name: Option<&str>,
    sql: &str,
) -> (Result<Vec<NormalizedRow>, ExecutionError>, Vec<Did>) {
    let mut did = Vec::new();
    let mut state = QueryState::new(server_id, sql.to_string(), database_name.map(|d| d.to_string()));
    let mut event = QueryEvent::Start;
    let mut new_handle = Some(new_handle);
    let mut outcome = Some(outcome);
    loop {
        let (next, action) = execute_query(registry, state, event);
        state = next;
        event = match action {
            QueryAction::LoadServer { server_id } => {
                did.push(Did::Loaded(server_id));
                QueryEvent::ServerLoaded(saved.clone())
            }
            QueryAction::Connect(params) => {
                did.push(Did::Connected(params.dbname.clone()));
                QueryEvent::Connected(new_handle.take().unwrap())
            }
            QueryAction::Checkout => QueryEvent::Proceed,
            QueryAction::Run { connection, sql } => {
                did.push(Did::Ran(connection, sql));
                QueryEvent::Ran { connection: Some(connection), outcome: outcome.take().unwrap() }
            }
            QueryAction::Finish(result) => return (result, did),
        };
    }
}

#[test]
fn execute_without_a_database_runs_against_the_servers_default() {
    let mut registry: Registry<u32> = Registry::new();
    let (result, did) = run_to_end(
        &mut registry,
        Some(server(1, Some("app"))),
        Ok(100),
        Ok(select_one()),
        1,
        None,
        "SELECT 1",
    );
    let rows = result.unwrap();
    assert_eq!(rows.len(), 1);
    assert_eq!(cells_of(&rows[0]), vec![("?column?".to_string(), Some("1".to_string()))]);
    assert_eq!(
        did,
        vec![Did::Loaded(1), Did::Connected("app".to_string()), Did::Ran(100, "SELECT 1".to_string())]
    );
    assert!(registry.contains(&key(1, "app")));
    assert!(!registry.contains(&key(1, "postgres")));
}

#[test]
fn execute_without_a_database_or_a_default_runs_against_postgres() {
    let mut registry: Registry<u32> = Registry::new();
    let (result, did) =
        run_to_end(&mut registry, Some(server(1, None)), Ok(100), Ok(select_one()), 1, None, "SELECT 1");
    assert!(result.is_ok());
    assert_eq!(did[1], Did::Connected("postgres".to_string()));
    assert!(registry.contains(&key(1, "postgres")));
}

#[test]
fn execute_with_a_database_runs_against_it() {
    let mut registry: Registry<u32> = Registry::new();
    let (result, did) = run_to_end(
        &mut registry,
        Some(server(1, Some("app"))),
        Ok(100),
        Ok(select_one()),
        1,
        Some("logs"),
        "SELECT 1",
    );
    assert!(result.is_ok());
    assert_eq!(did[1], Did::Connected("logs".to_string()));
    assert!(registry.contains(&key(1, "logs")));
    assert!(!registry.contains(&key(1, "app")));
}

#[test]
fn execute_for_an_unregistered_server_fails_without_a_connect() {
    let mut registry: Registry<u32> = Registry::new();
    let (result, did) = run_to_end(&mut registry, None, Ok(100), Ok(select_one()), 999, None, "SELECT 1");
    assert_eq!(result, Err(ExecutionError::ConfigNotFound { server_id: 999 }));
    assert_eq!(did, vec![Did::Loaded(999)]);
    assert!(!registry.knows_server(999));
}

#[test]
fn a_statement_with_zero_rows_gives_an_empty_list_and_no_error() {
    let mut registry: Registry<u32> = Registry::new();
    let empty = RawResult {
        backend: Backend::Postgres,
        columns: vec![Column { name: "id".to_string(), typname: "int4".to_string() }],
        rows: vec![],
    };
    let (result, _) =
        run_to_end(&mut registry, Some(server(1, Some("app"))), Ok(100), Ok(empty), 1, None, "SELECT 1 WHERE false");
    assert_eq!(result.map(|rows| rows.len()), Ok(0));
}

#[test]
fn a_cached_connection_is_reused_without_a_handshake() {
    let mut registry: Registry<u32> = Registry::new();
    registry.checkin(&key(1, "app"), 7);
    let (result, did) = run_to_end(
        &mut registry,
        Some(server(1, Some("app"))),
        Err("no handshake expected".to_string()),
        Ok(select_one()),
        1,
        None,
        "SELECT 1",
    );
    assert!(result.is_ok());
    assert_eq!(did, vec![Did::Loaded(1), Did::Ran(7, "SELECT 1".to_string())]);
    assert_eq!(registry.checkout(&key(1, "app")), Some(7));
}

#[test]
fn a_failed_handshake_is_a_connect_error() {
    let mut registry: Registry<u32> = Registry::new();
    let (result, did) = run_to_end(
        &mut registry,
        Some(server(1, Some("app"))),
        Err("timed out".to_string()),
        Ok(select_one()),
        1,
        None,
        "SELECT 1",
    );
    assert_eq!(result, Err(ExecutionError::ConnectError { cause: "timed out".to_string() }));
    assert_eq!(did, vec![Did::Loaded(1), Did::Connected("app".to_string())]);
    assert!(!registry.contains(&key(1, "app")));
}

#[test]
fn a_failed_statement_is_a_query_error_and_the_connection_is_checked_in() {
    let mut registry: Registry<u32> = Registry::new();
    let (result, did) = run_to_end(
        &mut registry,
        Some(server(1, Some("app"))),
        Ok(100),
        Err("syntax error at or near \"SELEC\"".to_string()),
        1,
        None,
        "SELEC 1",
    );
    assert_eq!(
        result,
        Err(ExecutionError::QueryError { backend_message: "syntax error at or near \"SELEC\"".to_string() })
    );
    assert_eq!(did.len(), 3);
    assert_eq!(registry.checkout(&key(1, "app")), Some(100));
}

#[test]
fn the_connection_is_absent_from_the_registry_while_the_statement_runs() {
    let mut registry: Registry<u32> = Registry::new();
    registry.checkin(&key(1, "app"), 7);
    let state = QueryState::new(1, "SELECT 1".to_string(), None);
    let (state, action) = execute_query(&mut registry, state, QueryEvent::Start);
    assert!(matches!(action, QueryAction::LoadServer { server_id: 1 }));
    let (state, action) =
        execute_query(&mut registry, state, QueryEvent::ServerLoaded(Some(server(1, Some("app")))));
    assert!(matches!(action, QueryAction::Checkout));
    assert!(matches!(state.stage, QueryStage::Ensured { .. }));
    assert!(registry.contains(&key(1, "app")));
    let (state, action) = execute_query(&mut registry, state, QueryEvent::Proceed);
    let handle = match action {
        QueryAction::Run { connection, sql } => {
            assert_eq!(sql, "SELECT 1");
            connection
        }
        other => panic!("unexpected action {:?}", other),
    };
    assert_eq!(handle, 7);
    assert!(matches!(state.stage, QueryStage::Executing { .. }));
    assert!(!registry.contains(&key(1, "app")));
    let (state, action) = execute_query(
        &mut registry,
        state,
        QueryEvent::Ran { connection: Some(handle), outcome: Ok(select_one()) },
    );
    assert!(matches!(state.stage, QueryStage::CheckedIn));
    assert!(matches!(action, QueryAction::Finish(Ok(_))));
    assert!(registry.contains(&key(1, "app")));
}

#[test]
fn a_connection_gone_at_checkout_is_an_invariant_violation() {
    let mut registry: Registry<u32> = Registry::new();
    registry.checkin(&key(1, "app"), 7);
    let state = QueryState::new(1, "SELECT 1".to_string(), None);
    let (state, _) = execute_query(&mut registry, state, QueryEvent::Start);
    let (state, action) =
        execute_query(&mut registry, state, QueryEvent::ServerLoaded(Some(server(1, Some("app")))));
    assert!(matches!(action, QueryAction::Checkout));
    assert_eq!(registry.checkout(&key(1, "app")), Some(7));
    let (state, action) = execute_query(&mut registry, state, QueryEvent::Proceed);
    assert!(matches!(state.stage, QueryStage::Failed));
    assert!(matches!(action, QueryAction::Finish(Err(ExecutionError::InternalInvariantViolation))));
}

#[test]
fn a_second_execution_of_a_key_in_use_connects_again() {
    let mut registry: Registry<u32> = Registry::new();
    registry.checkin(&key(1, "app"), 7);
    let first = QueryState::new(1, "SELECT 1".to_string(), None);
    let (first, _) = execute_query(&mut registry, first, QueryEvent::Start);
    let (first, _) =
        execute_query(&mut registry, first, QueryEvent::ServerLoaded(Some(server(1, Some("app")))));
    let (_first, action) = execute_query(&mut registry, first, QueryEvent::Proceed);
    assert!(matches!(action, QueryAction::Run { connection: 7, .. }));

    let second = QueryState::new(1, "SELECT 2".to_string(), None);
    let (second, _) = execute_query(&mut registry, second, QueryEvent::Start);
    let (_second, action) =
        execute_query(&mut registry, second, QueryEvent::ServerLoaded(Some(server(1, Some("app")))));
    assert!(matches!(action, QueryAction::Connect(_)));
}

#[test]
fn a_lost_connection_is_not_checked_in() {
    let mut registry: Registry<u32> = Registry::new();
    registry.checkin(&key(1, "app"), 7);
    let state = QueryState::new(1, "SELECT 1".to_string(), None);
    let (state, _) = execute_query(&mut registry, state, QueryEvent::Start);
    let (state, _) =
        execute_query(&mut registry, state, QueryEvent::ServerLoaded(Some(server(1, Some("app")))));
    let (state, _) = execute_query(&mut registry, state, QueryEvent::Proceed);
    let (state, action) = execute_query(
        &mut registry,
        state,
        QueryEvent::Ran { connection: None, outcome: Err("worker lost".to_string()) },
    );
    assert!(matches!(state.stage, QueryStage::Failed));
    assert!(matches!(action, QueryAction::Finish(Err(ExecutionError::QueryError { .. }))));
    assert!(!registry.contains(&key(1, "app")));
}

#[test]
fn an_event_out_of_turn_fails_the_execution_and_leaves_the_registry() {
    let mut registry: Registry<u32> = Registry::new();
    registry.checkin(&key(1, "app"), 7);
    let state = QueryState::new(1, "SELECT 1".to_string(), None);
    let (state, action) = execute_query(&mut registry, state, QueryEvent::Proceed);
    assert!(matches!(state.stage, QueryStage::Failed));
    assert!(matches!(action, QueryAction::Finish(Err(ExecutionError::InternalInvariantViolation))));
    let (state, action) = execute_query(&mut registry, state, QueryEvent::Start);
    assert!(matches!(state.stage, QueryStage::Failed));
    assert!(matches!(action, QueryAction::Finish(Err(ExecutionError::InternalInvariantViolation))));
    let fresh = QueryState::new(1, "SELECT 1".to_string(), None);
    let (_, action) = execute_query(
        &mut registry,
        fresh,
        QueryEvent::Ran { connection: Some(9), outcome: Ok(select_one()) },
    );
    assert!(matches!(action, QueryAction::Finish(Err(ExecutionError::InternalInvariantViolation))));
    assert_eq!(registry.checkout(&key(1, "app")), Some(7));
}

#[test]
fn the_handshake_parameters_come_from_the_saved_server() {
    let mut registry: Registry<u32> = Registry::new();
    let state = ConnectState::new(1, None);
    let (state, action) = connect(&mut registry, state, ConnectEvent::Start);
    assert!(matches!(action, ConnectAction::LoadServer { server_id: 1 }));
    assert!(matches!(state.stage, ConnectStage::AwaitingServer));
    let (state, action) =
        connect(&mut registry, state, ConnectEvent::ServerLoaded(Some(server(1, Some("app")))));
    assert!(matches!(state.stage, ConnectStage::Connecting { .. }));
    match action {
        ConnectAction::Connect(params) => assert_eq!(
            params,
            ConnectParams {
                host: "db.example".to_string(),
                port: 5433,
                user: "ann".to_string(),
                password: "secret".to_string(),
                dbname: "app".to_string(),
                connect_timeout_secs: 5,
            }
        ),
        other => panic!("unexpected action {:?}", other),
    }
}

#[test]
fn connect_stores_the_new_connection_under_the_resolved_key() {
    let mut registry: Registry<u32> = Registry::new();
    let state = ConnectState::new(1, None);
    let (state, _) = connect(&mut registry, state, ConnectEvent::Start);
    let (state, _) = connect(&mut registry, state, ConnectEvent::ServerLoaded(Some(server(1, Some("app")))));
    let (state, action) = connect(&mut registry, state, ConnectEvent::Connected(Ok(100)));
    assert!(matches!(state.stage, ConnectStage::Ensured { .. }));
    match action {
        ConnectAction::Done(Ok(ensured)) => {
            assert_eq!(ensured.server_id, 1);
            assert_eq!(ensured.database_name, "app");
        }
        other => panic!("unexpected action {:?}", other),
    }
    assert_eq!(registry.checkout(&key(1, "app")), Some(100));
}

#[test]
fn connect_does_nothing_where_a_connection_is_cached() {
    let mut registry: Registry<u32> = Registry::new();
    registry.checkin(&key(1, "app"), 7);
    let state = ConnectState::new(1, Some("app".to_string()));
    let (state, _) = connect(&mut registry, state, ConnectEvent::Start);
    let (state, action) = connect(&mut registry, state, ConnectEvent::ServerLoaded(Some(server(1, None))));
    assert!(matches!(state.stage, ConnectStage::Ensured { .. }));
    assert!(matches!(action, ConnectAction::Done(Ok(_))));
    assert_eq!(registry.checkout(&key(1, "app")), Some(7));
}

#[test]
fn connect_looks_the_server_up_even_where_a_database_is_named() {
    let mut registry: Registry<u32> = Registry::new();
    registry.checkin(&key(5, "app"), 7);
    let state = ConnectState::new(5, Some("app".to_string()));
    let (state, action) = connect(&mut registry, state, ConnectEvent::Start);
    assert!(matches!(action, ConnectAction::LoadServer { server_id: 5 }));
    let (state, action) = connect(&mut registry, state, ConnectEvent::ServerLoaded(None));
    assert!(matches!(state.stage, ConnectStage::Failed));
    match action {
        ConnectAction::Done(Err(error)) => assert_eq!(error, ExecutionError::ConfigNotFound { server_id: 5 }),
        other => panic!("unexpected action {:?}", other),
    }
}

#[test]
fn of_two_racing_first_callers_the_first_stored_connection_stays() {
    let mut registry: Registry<u32> = Registry::new();
    let a = ConnectState::new(1, None);
    let b = ConnectState::new(1, None);
    let (a, _) = connect(&mut registry, a, ConnectEvent::Start);
    let (b, _) = connect(&mut registry, b, ConnectEvent::Start);
    let (a, action_a) = connect(&mut registry, a, ConnectEvent::ServerLoaded(Some(server(1, Some("app")))));
    let (b, action_b) = connect(&mut registry, b, ConnectEvent::ServerLoaded(Some(server(1, Some("app")))));
    assert!(matches!(action_a, ConnectAction::Connect(_)));
    assert!(matches!(action_b, ConnectAction::Connect(_)));
    let (_, done_a) = connect(&mut registry, a, ConnectEvent::Connected(Ok(100)));
    let (_, done_b) = connect(&mut registry, b, ConnectEvent::Connected(Ok(200)));
    assert!(matches!(done_a, ConnectAction::Done(Ok(_))));
    assert!(matches!(done_b, ConnectAction::Done(Ok(_))));
    assert_eq!(registry.checkout(&key(1, "app")), Some(100));
    assert_eq!(registry.checkout(&key(1, "app")), None);
}

#[test]
fn connect_rejects_an_event_out_of_turn() {
    let mut registry: Registry<u32> = Registry::new();
    let state = ConnectState::new(1, None);
    let (state, action) = connect(&mut registry, state, ConnectEvent::Connected(Ok(5)));
    assert!(matches!(state.stage, ConnectStage::Failed));
    match action {
        ConnectAction::Done(Err(error)) => assert_eq!(error, ExecutionError::InternalInvariantViolation),
        other => panic!("unexpected action {:?}", other),
    }
    assert!(!registry.knows_server(1));
}

#[test]
fn every_row_of_a_result_has_the_declared_number_of_cells() {
    let mut registry: Registry<u32> = Registry::new();
    let result = RawResult {
        backend: Backend::Postgres,
        columns: vec![
            Column { name: "a".to_string(), typname: "int4".to_string() },
            Column { name: "b".to_string(), typname: "text".to_string() },
            Column { name: "a".to_string(), typname: "bool".to_string() },
        ],
        rows: vec![
            vec![RawValue::Integer(1), RawValue::Text("x".to_string()), RawValue::Boolean(true)],
            vec![RawValue::Null, RawValue::Null, RawValue::Null],
            vec![RawValue::Integer(3)],
        ],
    };
    let (rows, _) = run_to_end(&mut registry, Some(server(1, Some("app"))), Ok(1), Ok(result), 1, None, "SELECT a, b, a");
    let rows = rows.unwrap();
    assert_eq!(rows.len(), 3);
    for row in rows.iter() {
        let names: Vec<&str> = row.cells.iter().map(|c| c.name.as_str()).collect();
        assert_eq!(names, vec!["a", "b", "a"]);
    }
    assert_eq!(rows[0].cells[2].value, Some("true".to_string()));
    assert_eq!(rows[2].cells[1].value, None);
}

/// A small generator of numbers that look random and are the same on every
/// run.
fn next_number(seed: &mut u64) -> u64 {
    *seed = seed.wrapping_mul(6364136223846793005).wrapping_add(1442695040888963407);
    *seed >> 33
}

#[test]
fn no_connection_is_ever_in_two_places() {
    let databases = ["app", "logs"];
    let mut seed: u64 = 7;
    let mut registry: Registry<u32> = Registry::new();
    let mut next_handle: u32 = 1;
    // Each slot: the state, the event to deliver next, and the handle in hand.
    let mut slots: Vec<(Option<QueryState>, Option<QueryEvent<u32>>, Option<u32>)> = Vec::new();
    for _ in 0..6 {
        slots.push((None, None, None));
    }
    let mut runs_finished = 0;
    for _ in 0..4000 {
        let who = (next_number(&mut seed) % 6) as usize;
        if slots[who].0.is_none() {
            let database = databases[(next_number(&mut seed) % 2) as usize];
            slots[who] = (
                Some(QueryState::new(1, "SELECT 1".to_string(), Some(database.to_string()))),
                Some(QueryEvent::Start),
                None,
            );
        }
        let state = slots[who].0.take().unwrap();
        let event = slots[who].1.take().unwrap();
        let (next, action) = execute_query(&mut registry, state, event);
        let following = match action {
            QueryAction::LoadServer { .. } => Some(QueryEvent::ServerLoaded(Some(server(1, None)))),
            QueryAction::Connect(_) => {
                let handle = next_handle;
                next_handle += 1;
                Some(QueryEvent::Connected(Ok(handle)))
            }
            QueryAction::Checkout => Some(QueryEvent::Proceed),
            QueryAction::Run { connection, .. } => {
                for other in slots.iter() {
                    assert_ne!(other.2, Some(connection));
                }
                slots[who].2 = Some(connection);
                Some(QueryEvent::Ran { connection: Some(connection), outcome: Ok(select_one()) })
            }
            QueryAction::Finish(_) => {
                slots[who].2 = None;
                runs_finished += 1;
                None
            }
        };
        if let Some(QueryEvent::Ran { .. }) = &following {
        } else {
            slots[who].2 = None;
        }
        match following {
            Some(event) => {
                slots[who].0 = Some(next);
                slots[who].1 = Some(event);
            }
            None => {
                slots[who].0 = None;
                slots[who].1 = None;
            }
        }
        // A handle in hand is not cached: taking the cached ones out and
        // putting them back shows them all.
        for database in databases {
            if let Some(cached) = registry.checkout(&key(1, database)) {
                for slot in slots.iter() {
                    assert_ne!(slot.2, Some(cached));
                }
                registry.checkin(&key(1, database), cached);
            }
        }
        let app = registry.checkout(&key(1, "app"));
        let logs = registry.checkout(&key(1, "logs"));
        if app.is_some() {
            assert_ne!(app, logs);
        }
        if let Some(handle) = app {
            registry.checkin(&key(1, "app"), handle);
        }
        if let Some(handle) = logs {
            registry.checkin(&key(1, "logs"), handle);
        }
    }
    assert!(runs_finished > 100);
}

#[test]
fn without_an_untimely_handshake_one_execution_at_a_time_runs_on_a_key() {
    let mut registry: Registry<u32> = Registry::new();
    registry.checkin(&key(1, "app"), 7);
    let mut running = 0;
    let mut states = Vec::new();
    for _ in 0..3 {
        let state = QueryState::new(1, "SELECT 1".to_string(), Some("app".to_string()));
        let (state, _) = execute_query(&mut registry, state, QueryEvent::Start);
        states.push(state);
    }
    // The first finds the connection and takes it.
    let first = states.remove(0);
    let (first, action) =
        execute_query(&mut registry, first, QueryEvent::ServerLoaded(Some(server(1, None))));
    assert!(matches!(action, QueryAction::Checkout));
    let (first, action) = execute_query(&mut registry, first, QueryEvent::Proceed);
    if let QueryAction::Run { .. } = action {
        running += 1;
    }
    // The others find the key absent and are told to connect; until a
    // handshake completes none of them runs.
    for state in states {
        let (state, action) =
            execute_query(&mut registry, state, QueryEvent::ServerLoaded(Some(server(1, None))));
        assert!(matches!(action, QueryAction::Connect(_)));
        assert!(matches!(state.stage, QueryStage::Ensuring(_)));
    }
    assert_eq!(running, 1);
    assert!(!registry.contains(&key(1, "app")));
    let (_, action) = execute_query(
        &mut registry,
        first,
        QueryEvent::Ran { connection: Some(7), outcome: Ok(select_one()) },
    );
    assert!(matches!(action, QueryAction::Finish(Ok(_))));
    assert!(registry.contains(&key(1, "app")));
}
