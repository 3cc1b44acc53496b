//! Verified core of the Nusa PHP runtime: configuration rules, request guards,
//! tenant isolation, rate limiting, development hot-reload decisions and the
//! command-line grammar.
pub mod text;
pub mod assoc;
pub mod types;
pub mod vfs;
pub mod sql;
pub mod async_io;
pub mod rate_limiter;
pub mod dev;
pub mod cli;
pub mod error;
pub mod guards;
pub mod tenant;
pub mod config;
pub mod task;
pub mod test_runner;
pub mod deploy;
pub mod server;
