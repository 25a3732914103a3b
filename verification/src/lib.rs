//! Multiplex shell commands over a fleet of hosts.
//!
//! A configuration and a request resolve to a per-host plan of commands;
//! the plan drives one worker per host, held together by a barrier that
//! lets the sync hosts finish their sync commands first.
pub mod barrier;
pub mod config;
pub mod error;
pub mod laws;
pub mod model;
pub mod multiplex;
pub mod ordered;
pub mod sequences;
pub mod ssh;
pub mod table;
pub mod utils;
