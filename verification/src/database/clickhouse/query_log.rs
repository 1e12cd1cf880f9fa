//! The query log entries, under the name the log writer uses.
pub use crate::common::clickhouse::{QueryLog, QueryLogRow};
