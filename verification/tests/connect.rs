use octapus_db::connect::{
    connect_params, connection_string, database_for, resolve, server_connection_string,
    ConnectParams, CONNECT_TIMEOUT_SECS, DEFAULT_PORT,
};
use octapus_db::error::ExecutionError;
use octapus_db::models::{DatabaseConnection, PostgreServer, ServerInfo};

fn server(port: i32, default_database: Option<&str>) -> PostgreServer {
    PostgreServer {
        id: Some(1),
        name: "main".to_string(),
        host: "localhost".to_string(),
        port,
        username: "ann".to_string(),
        password: "pw".to_string(),
        default_database: default_database.map(|d| d.to_string()),
        created_at: 1_700_000_000,
    }
}

#[test]
fn database_for_prefers_the_request_then_the_default_then_postgres() {
    assert_eq!(database_for(Some("logs".to_string()), &server(5432, Some("app"))), "logs");
    assert_eq!(database_for(None, &server(5432, Some("app"))), "app");
    assert_eq!(database_for(None, &server(5432, None)), "postgres");
    assert_eq!(database_for(Some(String::new()), &server(5432, Some("app"))), "");
}

#[test]
fn resolve_gives_the_effective_key() {
    let saved = server(5432, Some("app"));
    let key = resolve(1, None, Some(&saved)).unwrap();
    assert_eq!(key.server_id, 1);
    assert_eq!(key.database_name, "app");
    let key = resolve(7, Some("logs".to_string()), Some(&saved)).unwrap();
    assert_eq!(key.server_id, 7);
    assert_eq!(key.database_name, "logs");
}

#[test]
fn resolve_fails_where_the_server_is_not_saved() {
    assert_eq!(resolve(999, None, None).err(), Some(ExecutionError::ConfigNotFound { server_id: 999 }));
    assert_eq!(
        resolve(999, Some("app".to_string()), None).err(),
        Some(ExecutionError::ConfigNotFound { server_id: 999 })
    );
}

#[test]
fn connect_params_take_the_saved_port_where_it_is_a_port() {
    assert_eq!(connect_params(&server(5433, None), "app").port, 5433);
    assert_eq!(connect_params(&server(0, None), "app").port, 0);
    assert_eq!(connect_params(&server(65535, None), "app").port, 65535);
}

#[test]
fn connect_params_fall_back_to_the_default_port() {
    assert_eq!(connect_params(&server(65536, None), "app").port, DEFAULT_PORT);
    assert_eq!(connect_params(&server(-1, None), "app").port, 5432);
    assert_eq!(connect_params(&server(i32::MAX, None), "app").port, 5432);
    assert_eq!(connect_params(&server(i32::MIN, None), "app").port, 5432);
}

#[test]
fn connect_params_carry_the_login_and_the_time_limit() {
    assert_eq!(
        connect_params(&server(5432, Some("ignored")), "app"),
        ConnectParams {
            host: "localhost".to_string(),
            port: 5432,
            user: "ann".to_string(),
            password: "pw".to_string(),
            dbname: "app".to_string(),
            connect_timeout_secs: 5,
        }
    );
    assert_eq!(CONNECT_TIMEOUT_SECS, 5);
}

#[test]
fn connection_string_names_host_port_user_password_and_database() {
    let details = DatabaseConnection::new(
        "db.example".to_string(),
        5432,
        "ann".to_string(),
        "pw".to_string(),
        "app".to_string(),
    );
    assert_eq!(connection_string(&details), "host=db.example port=5432 user=ann password=pw dbname=app");
    assert_eq!(
        connection_string(&details),
        format!(
            "host={} port={} user={} password={} dbname={}",
            details.host, details.port, details.username, details.password, details.database_name
        )
    );
}

#[test]
fn server_connection_string_leaves_the_database_out() {
    let info = ServerInfo {
        id: 3,
        name: "main".to_string(),
        host: "10.0.0.1".to_string(),
        port: -1,
        username: "u".to_string(),
        password: "".to_string(),
    };
    assert_eq!(server_connection_string(&info), "host=10.0.0.1 port=-1 user=u password=");
}

#[test]
fn database_connection_new_keeps_its_arguments() {
    let details = DatabaseConnection::new("h".to_string(), 1, "u".to_string(), "p".to_string(), "d".to_string());
    assert_eq!(
        details,
        DatabaseConnection {
            host: "h".to_string(),
            port: 1,
            username: "u".to_string(),
            password: "p".to_string(),
            database_name: "d".to_string(),
        }
    );
}
