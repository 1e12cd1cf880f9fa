use model_gateway::common::clickhouse::{
    create_query_log_statement, insert_query_log_statement, ClickHouseClient, QueryLog,
};
use model_gateway::common::config::{default_node_id, ClickHouseConfig};
use model_gateway::common::server::ServerConfig;
use model_gateway::database::clickhouse::migration::{
    create_query_logs_statement, create_schema_migrations_statement, drop_query_logs_statement,
    Migrator,
};
use model_gateway::json::parse_json;
use model_gateway::status::StatusCode;

#[test]
fn listen_on_a_bare_port_binds_every_interface() {
    assert_eq!(ServerConfig::new(":8000".to_string()).bind_address(), "0.0.0.0:8000");
    assert_eq!(ServerConfig::new("127.0.0.1:9000".to_string()).bind_address(), "127.0.0.1:9000");
    assert_eq!(ServerConfig::new("x".to_string()).listen, "x");
}

#[test]
fn clickhouse_rows_get_ids_of_the_node() {
    let config = ClickHouseConfig {
        url: "http://localhost:8123".to_string(),
        database: "gateway".to_string(),
        username: "default".to_string(),
        password: "secret".to_string(),
        node_id: 9,
    };
    let client = ClickHouseClient::new(&config);
    assert_eq!(client.url(), "http://localhost:8123");
    assert_eq!(client.database(), "gateway");
    assert_eq!(client.username(), "default");
    assert_eq!(client.password(), "secret");
    assert_eq!(client.client().database(), Some("gateway"));
    assert_eq!(client.sequence_id().node_id(), 9);
    let log = QueryLog {
        id: 0,
        key_id: "k".to_string(),
        model: "m".to_string(),
        content: "c".to_string(),
        request_payload: parse_json(r#"{"z": 1, "a": 2}"#).unwrap(),
        response_payload: parse_json("[]").unwrap(),
        duration_first_token: 1,
        duration_completed: 2,
        input_token: 3,
        output_token: 4,
        cache_token: 5,
    };
    let row = client.log_row(&log);
    assert_eq!((row.id >> 14) & 0xFF, 9);
    assert_eq!(row.request_payload, r#"{"a":2,"z":1}"#);
    assert_eq!(row.response_payload, "[]");
    assert_eq!((row.key_id.as_str(), row.model.as_str(), row.content.as_str()), ("k", "m", "c"));
    assert_eq!((row.duration_first_token, row.duration_completed), (1, 2));
    assert_eq!((row.input_token, row.output_token, row.cache_token), (3, 4, 5));
    assert_eq!(default_node_id(), 0);
}

#[test]
fn migration_statements() {
    assert_eq!(Migrator::create_database_statement("logs"), "CREATE DATABASE IF NOT EXISTS `logs`");
    assert_eq!(
        Migrator::applied_count_query(),
        "SELECT count() FROM schema_migrations WHERE version = 'm20250209_000000_create_query_log'"
    );
    assert_eq!(
        Migrator::record_statement(),
        "INSERT INTO schema_migrations (version) VALUES ('m20250209_000000_create_query_log')"
    );
    assert!(Migrator::needs_apply(0));
    assert!(!Migrator::needs_apply(1));
}

#[test]
fn status_codes() {
    let codes = [
        StatusCode::ok(),
        StatusCode::bad_request(),
        StatusCode::unauthorized(),
        StatusCode::method_not_allowed(),
        StatusCode::internal_server_error(),
        StatusCode::not_implemented(),
        StatusCode::bad_gateway(),
    ];
    let numbers: Vec<u16> = codes.iter().map(|c| c.as_u16()).collect();
    assert_eq!(numbers, vec![200, 400, 401, 405, 500, 501, 502]);
}

#[test]
fn table_statements() {
    assert!(create_query_log_statement().trim().starts_with("CREATE TABLE IF NOT EXISTS query_log ("));
    assert!(create_query_log_statement().trim().ends_with("ORDER BY id"));
    assert!(create_query_logs_statement().trim().starts_with("CREATE TABLE IF NOT EXISTS query_logs ("));
    assert!(create_schema_migrations_statement().contains("applied_at DateTime DEFAULT now()"));
    assert_eq!(drop_query_logs_statement(), "DROP TABLE IF EXISTS query_logs");
    assert_eq!(insert_query_log_statement(), "INSERT INTO query_log VALUES (?, ?, ?, ?, ?, ?, ?, ?, ?, ?, ?)");
}
