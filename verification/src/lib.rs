//! Verified core of the DSH desktop shell: configuration, environment
//! discovery, log tailing, service supervision and stale-process handling.
pub mod config;
pub mod diagnostics;
pub mod env;
pub mod logging;
pub mod service;
pub mod shell;
pub mod stale;
pub mod text;
