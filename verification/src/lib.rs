//! A request-scoped dataflow engine for an HTTP proxy filter.
//!
//! Operators declare a directed graph of typed, port-bearing nodes; on each
//! HTTP transaction the engine moves payloads along the graph's links,
//! honouring asynchronous waits, and writes results back into the proxy
//! stream.  The configuration compiler, the dependency graph, the per-request
//! payload store and the scheduler live here, each with its contract.

pub mod config;
pub mod data;
pub mod debug;
pub mod engine;
pub mod dependency_graph;
pub mod json;
pub mod nodes;
pub mod payload;
pub mod util;

pub use json::JsonValue;
