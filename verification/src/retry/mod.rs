//! Retry policy: how long to wait before the next attempt to connect, and
//! which server to try.

pub mod config;
pub mod context;

pub use config::RetryConfig;
pub use context::RetryContext;
