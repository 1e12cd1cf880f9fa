pub mod handler;
pub mod sse;
