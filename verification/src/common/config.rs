//! The gateway's configuration, as the configuration file describes it.
use vstd::prelude::*;

verus! {

/// The whole configuration.
#[derive(Clone, Debug)]
pub struct Config {
    /// Address to listen on, such as `:8000` or `127.0.0.1:8000`.
    pub listen: String,
    /// The key that callers must present.
    pub api_key: String,
    /// The upstream providers; requests go to the first.
    pub upstreams: Vec<Upstream>,
    pub postgres: Option<PostgresConfig>,
    pub clickhouse: Option<ClickHouseConfig>,
}

/// An upstream provider with its OpenAI and Anthropic endpoints.
#[derive(Clone, Debug)]
pub struct Upstream {
    pub name: String,
    pub openai_endpoint: String,
    pub anthropic_endpoint: String,
    /// The key that the gateway presents to the provider.
    pub key: String,
}

/// Where the key database lives.
#[derive(Clone, Debug)]
pub struct PostgresConfig {
    pub dsn: String,
}

/// Where the query log lives.
#[derive(Clone, Debug)]
pub struct ClickHouseConfig {
    pub url: String,
    pub database: String,
    pub username: String,
    pub password: String,
    /// The node id that this gateway writes into the ids of its log entries.
    pub node_id: u8,
}

/// The node id used when the configuration names none.
pub fn default_node_id() -> (r: u8)
    ensures
        r == 0,
{
    0
}

} // verus!
