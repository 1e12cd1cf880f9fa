//! The query log and the client that writes it to ClickHouse.
use crate::common::config::ClickHouseConfig;
use crate::json::{json_to_text, to_json_string, JsonValue};
use crate::util::sequence_id::{id_node, SequenceId};
use std::sync::Arc;
use vstd::prelude::*;

verus! {

/// `clickhouse::Client`, which the library only builds and hands out.
#[verifier::external_type_specification]
#[verifier::external_body]
pub struct ExClient(clickhouse::Client);

/// The url, database, user and password that a ClickHouse client holds.
pub uninterp spec fn client_settings(client: clickhouse::Client) -> (
    Seq<char>,
    Seq<char>,
    Seq<char>,
    Seq<char>,
);

/// A ClickHouse client for a server, database and user.
///
/// Calls `clickhouse::Client::default()` and then its `with_url`,
/// `with_database`, `with_user` and `with_password`, which store the
/// values given (the database given last replaces any that the url names).
/// The client starts from its default authentication, so `with_user` and
/// `with_password` do not meet the access token that would make them panic.
#[verifier::external_body]
fn build_client(url: &str, database: &str, user: &str, password: &str) -> (r: clickhouse::Client)
    ensures
        client_settings(r) == (url@, database@, user@, password@),
{
    clickhouse::Client::default().with_url(url).with_database(database).with_user(user).with_password(password)
}

/// The statement that creates the `query_log` table when it does not exist.
pub open spec fn query_log_table_text() -> Seq<char> {
    r#"
                CREATE TABLE IF NOT EXISTS query_log (
                    id UInt64,
                    key_id String,
                    model String,
                    content String,
                    request_payload String,
                    response_payload String,
                    duration_first_token UInt64,
                    duration_completed UInt64,
                    input_token UInt64,
                    output_token UInt64,
                    cache_token UInt64
                ) ENGINE = MergeTree()
                ORDER BY id
                "#@
}

/// The statement that creates the `query_log` table when it does not exist.
pub fn create_query_log_statement() -> (r: String)
    ensures
        r@ == query_log_table_text(),
{
    r#"
                CREATE TABLE IF NOT EXISTS query_log (
                    id UInt64,
                    key_id String,
                    model String,
                    content String,
                    request_payload String,
                    response_payload String,
                    duration_first_token UInt64,
                    duration_completed UInt64,
                    input_token UInt64,
                    output_token UInt64,
                    cache_token UInt64
                ) ENGINE = MergeTree()
                ORDER BY id
                "#.to_string()
}

/// The statement that inserts one row of the query log, its values bound in column order.
pub open spec fn insert_query_log_text() -> Seq<char> {
    "INSERT INTO query_log VALUES (?, ?, ?, ?, ?, ?, ?, ?, ?, ?, ?)"@
}

/// The statement that inserts one row of the query log, its values bound in column order.
pub fn insert_query_log_statement() -> (r: String)
    ensures
        r@ == insert_query_log_text(),
{
    "INSERT INTO query_log VALUES (?, ?, ?, ?, ?, ?, ?, ?, ?, ?, ?)".to_string()
}

/// Query log entry for storing in ClickHouse
pub struct QueryLog {
    pub id: u64,
    pub key_id: String,
    pub model: String,
    pub content: String,
    pub request_payload: JsonValue,
    pub response_payload: JsonValue,
    pub duration_first_token: u64,
    pub duration_completed: u64,
    pub input_token: u64,
    pub output_token: u64,
    pub cache_token: u64,
}

/// The values of one row of the `query_log` table, in column order.
pub struct QueryLogRow {
    pub id: u64,
    pub key_id: String,
    pub model: String,
    pub content: String,
    pub request_payload: String,
    pub response_payload: String,
    pub duration_first_token: u64,
    pub duration_completed: u64,
    pub input_token: u64,
    pub output_token: u64,
    pub cache_token: u64,
}

/// ClickHouse client wrapper
pub struct ClickHouseClient {
    client: clickhouse::Client,
    sequence_id: Arc<SequenceId>,
    url: String,
    database: String,
    username: String,
    password: String,
}

impl ClickHouseClient {
    /// The copies of the settings are those the client holds.
    #[verifier::type_invariant]
    spec fn settings_agree(&self) -> bool {
        client_settings(self.client) == (self.url@, self.database@, self.username@, self.password@)
    }

    /// The node id written into the ids of the rows this client inserts.
    pub closed spec fn node(&self) -> u8 {
        self.sequence_id.node()
    }

    /// The url, database, user and password that the client talks to.
    pub closed spec fn settings(&self) -> (Seq<char>, Seq<char>, Seq<char>, Seq<char>) {
        client_settings(self.client)
    }

    /// Creates a new ClickHouse client from config
    pub fn new(config: &ClickHouseConfig) -> (r: Self)
        ensures
            r.node() == config.node_id,
            r.settings() == (config.url@, config.database@, config.username@, config.password@),
    {
        let client = build_client(
            config.url.as_str(),
            config.database.as_str(),
            config.username.as_str(),
            config.password.as_str(),
        );
        let sequence_id = Arc::new(SequenceId::with_node_id(config.node_id));
        Self {
            client,
            sequence_id,
            url: config.url.clone(),
            database: config.database.clone(),
            username: config.username.clone(),
            password: config.password.clone(),
        }
    }

    /// The underlying client.
    pub fn client(&self) -> (r: &clickhouse::Client)
        ensures
            client_settings(*r) == self.settings(),
    {
        &self.client
    }

    /// The url the client talks to.
    pub fn url(&self) -> (r: &String)
        ensures
            r@ == self.settings().0,
    {
        proof {
            use_type_invariant(self);
        }
        &self.url
    }

    /// The database the client uses.
    pub fn database(&self) -> (r: &String)
        ensures
            r@ == self.settings().1,
    {
        proof {
            use_type_invariant(self);
        }
        &self.database
    }

    /// The user the client logs in as.
    pub fn username(&self) -> (r: &String)
        ensures
            r@ == self.settings().2,
    {
        proof {
            use_type_invariant(self);
        }
        &self.username
    }

    /// The password the client logs in with.
    pub fn password(&self) -> (r: &String)
        ensures
            r@ == self.settings().3,
    {
        proof {
            use_type_invariant(self);
        }
        &self.password
    }

    /// The generator of row ids.
    pub fn sequence_id(&self) -> (r: &SequenceId)
        ensures
            r.node() == self.node(),
    {
        &self.sequence_id
    }

    /// The row inserted for a log entry: a new id from this client's
    /// generator in place of the entry's, and the payloads as JSON text.
    pub fn log_row(&self, log: &QueryLog) -> (r: QueryLogRow)
        ensures
            id_node(r.id) == self.node(),
            r.key_id@ == log.key_id@,
            r.model@ == log.model@,
            r.content@ == log.content@,
            r.request_payload@ == json_to_text(log.request_payload@),
            r.response_payload@ == json_to_text(log.response_payload@),
            r.duration_first_token == log.duration_first_token,
            r.duration_completed == log.duration_completed,
            r.input_token == log.input_token,
            r.output_token == log.output_token,
            r.cache_token == log.cache_token,
    {
        // * generate new ID using SequenceId
        let new_id = self.sequence_id.next_id();
        // * serialize JSON values to strings
        QueryLogRow {
            id: new_id,
            key_id: log.key_id.clone(),
            model: log.model.clone(),
            content: log.content.clone(),
            request_payload: to_json_string(&log.request_payload),
            response_payload: to_json_string(&log.response_payload),
            duration_first_token: log.duration_first_token,
            duration_completed: log.duration_completed,
            input_token: log.input_token,
            output_token: log.output_token,
            cache_token: log.cache_token,
        }
    }
}

} // verus!
