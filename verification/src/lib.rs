//! Orchestration core for concurrent, sandboxed agent-task execution.
//!
//! The crate verifies the four safety-critical components of the system:
//! the process lifecycle controller (bounded timeout with a cascading
//! graceful-then-forced shutdown), the sandbox path validator (directory
//! whitelist with traversal defense), the task orchestrator (admission
//! control and the task status state machine), and the TTL-indexed memory
//! store that carries context between executions.

pub mod analysis;
pub mod config;
pub mod executor;
pub mod lifecycle;
pub mod memory;
pub mod orchestrator;
pub mod prompt;
pub mod sandbox;
pub mod strutil;
pub mod types;
