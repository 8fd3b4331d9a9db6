//! Sandboxed shell-command execution, modelled and verified.
//!
//! The crate covers the logic of a sandbox runner: the closed error
//! taxonomy, the session store with TTL-bounded records, the
//! line-delimited JSON protocol between host and guest agent, the
//! command-line builders for the container, WASM, remote-shell and
//! microVM backends, and the backend auto-selection policy.
//! Process spawning, sockets and the filesystem stay outside; every
//! function here computes from plain values and carries a contract.

pub mod args;
pub mod config;
pub mod docker;
pub mod error;
pub mod factory;
pub mod firecracker;
pub mod json;
pub mod prompt;
pub mod protocol;
pub mod sandbox;
pub mod session;
pub mod shell;
pub mod ssh;
pub mod strconv;
pub mod wasmer;

pub use error::BashletError;
