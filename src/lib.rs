//! Execution orchestrator for submitted code snippets.
//!
//! The library decides everything about one execution: which language tag maps
//! to which toolchain, where the artifacts of a request live, which program is
//! started with which argument vector, how a finished process is classified, when
//! the compiled executable is removed, and what reply the client gets. The host
//! program performs the actions it is handed (write a file, spawn a process,
//! remove a file) and reports each result back.

pub mod artifact;
pub mod process;
pub mod strategy;
pub mod registry;
pub mod dispatch;
