pub mod migration;
pub mod query_log;
