//! Discovery of hosts that serve the Ollama HTTP API.
//!
//! The library holds the decisions of a scan: how a row of the input becomes a
//! target, how the outcome of one probe becomes a service record, and how a
//! batch of probes is scheduled under a concurrency limit.

pub mod config;
pub mod error;
pub mod scanner;
pub mod storage;
pub mod utils;

pub use crate::error::OllamaError;
pub use crate::storage::{ModelInfo, OllamaService, Target};
