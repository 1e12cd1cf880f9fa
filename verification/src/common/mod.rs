pub mod clickhouse;
pub mod config;
pub mod server;
