//! The statements and the decision of the ClickHouse schema migration.
use crate::text::concat;
use vstd::prelude::*;

verus! {

broadcast use vstd::string::group_string_axioms;

/// The name of the migration that creates the query log.
pub open spec fn migration_version() -> Seq<char> {
    "m20250209_000000_create_query_log"@
}

/// The statement that creates the `query_logs` table of the migration.
pub open spec fn query_logs_table_text() -> Seq<char> {
    r#"
                CREATE TABLE IF NOT EXISTS query_logs (
                    id UInt64,
                    key_id String,
                    model String,
                    content String,
                    request_payload String,
                    response_payload String,
                    duration_first_token UInt64,
                    duration_completed UInt64,
                    input_token UInt64,
                    output_token UInt64,
                    cache_token UInt64
                ) ENGINE = MergeTree()
                ORDER BY id
                "#@
}

/// The statement that creates the `query_logs` table of the migration.
pub fn create_query_logs_statement() -> (r: String)
    ensures
        r@ == query_logs_table_text(),
{
    r#"
                CREATE TABLE IF NOT EXISTS query_logs (
                    id UInt64,
                    key_id String,
                    model String,
                    content String,
                    request_payload String,
                    response_payload String,
                    duration_first_token UInt64,
                    duration_completed UInt64,
                    input_token UInt64,
                    output_token UInt64,
                    cache_token UInt64
                ) ENGINE = MergeTree()
                ORDER BY id
                "#.to_string()
}

/// The statement that creates the table recording applied migrations.
pub open spec fn schema_migrations_table_text() -> Seq<char> {
    r#"
                CREATE TABLE IF NOT EXISTS schema_migrations (
                    version String,
                    applied_at DateTime DEFAULT now()
                ) ENGINE = MergeTree()
                ORDER BY version
                "#@
}

/// The statement that creates the table recording applied migrations.
pub fn create_schema_migrations_statement() -> (r: String)
    ensures
        r@ == schema_migrations_table_text(),
{
    r#"
                CREATE TABLE IF NOT EXISTS schema_migrations (
                    version String,
                    applied_at DateTime DEFAULT now()
                ) ENGINE = MergeTree()
                ORDER BY version
                "#.to_string()
}

/// The statement that undoes the migration.
pub open spec fn drop_query_logs_text() -> Seq<char> {
    "DROP TABLE IF EXISTS query_logs"@
}

/// The statement that undoes the migration.
pub fn drop_query_logs_statement() -> (r: String)
    ensures
        r@ == drop_query_logs_text(),
{
    "DROP TABLE IF EXISTS query_logs".to_string()
}

/// Runs pending migrations: this type holds what they say and decide.
pub struct Migrator;

impl Migrator {
    /// The name of the migration that creates the query log.
    pub fn version() -> (r: String)
        ensures
            r@ == migration_version(),
    {
        "m20250209_000000_create_query_log".to_string()
    }

    /// The statement that creates the database when it does not exist.
    pub fn create_database_statement(database: &str) -> (r: String)
        ensures
            r@ == "CREATE DATABASE IF NOT EXISTS `"@ + database@ + "`"@,
    {
        concat(&concat(&"CREATE DATABASE IF NOT EXISTS `".to_string(), database), "`")
    }

    /// The query that counts how often the migration was recorded.
    pub fn applied_count_query() -> (r: String)
        ensures
            r@ == "SELECT count() FROM schema_migrations WHERE version = '"@ + migration_version()
                + "'"@,
    {
        concat(
            &concat(
                &"SELECT count() FROM schema_migrations WHERE version = '".to_string(),
                Self::version().as_str(),
            ),
            "'",
        )
    }

    /// The statement that records the migration as applied.
    pub fn record_statement() -> (r: String)
        ensures
            r@ == "INSERT INTO schema_migrations (version) VALUES ('"@ + migration_version()
                + "')"@,
    {
        concat(
            &concat(
                &"INSERT INTO schema_migrations (version) VALUES ('".to_string(),
                Self::version().as_str(),
            ),
            "')",
        )
    }

    /// The migration is applied when it was never recorded.
    pub fn needs_apply(already_applied: u64) -> (r: bool)
        ensures
            r == (already_applied == 0),
    {
        already_applied == 0
    }
}

} // verus!
