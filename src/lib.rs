//! Ingestion-and-scan core: path-escape checks for archive entries and clone
//! destinations, ignore-aware selection of candidate files, streaming content
//! scanning, workspace lifecycle and the per-request pipeline state machine.

pub mod archive;
pub mod error;
pub mod paths;
pub mod pipeline;
pub mod scan;
pub mod service;
pub mod walk;
pub mod workspace;

pub use service::{QueryRequest, QueryResponse};
