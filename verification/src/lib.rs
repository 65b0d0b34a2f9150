//! Scaffolding for command-driven tools: a generic configuration model
//! loaded from a structured file and overridable by the environment and
//! process arguments, plus a runner abstraction that resolves a log level
//! and dispatches to a named operation.
pub mod config;
pub mod request;
pub mod runner;
pub mod tree;
