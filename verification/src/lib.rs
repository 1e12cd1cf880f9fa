//! A gateway for large language model APIs: it checks the caller's key,
//! routes each request to the configured upstream, and records what was
//! asked and answered.
pub mod common;
pub mod config;
pub mod database;
pub mod handler;
pub mod json;
pub mod status;
pub mod text;
pub mod util;
pub mod validation;
