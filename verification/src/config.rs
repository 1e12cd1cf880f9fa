//! The configuration types, under the name the entry point uses.
pub use crate::common::config::{Config, Upstream};
