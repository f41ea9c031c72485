//! MCP server benchmarking proxy: measure latency and token usage of MCP
//! servers and compare them.
//!
//! The library holds what the proxy decides and computes; sockets, processes
//! and the terminal are left to the program around it.

/// What the benchmarking proxy decides.
pub mod bench;
/// Points in time and time spans.
pub mod clock;
/// Configuration types.
pub mod config;
/// JSON values.
pub mod json;
/// Latency statistics.
pub mod latency;
/// Metric collection, aggregation, and report types.
pub mod metrics;
/// Sorting of summaries by rank.
pub mod order;
/// Terminal report layout.
pub mod report;
/// Rounding of integers the way binary64 arithmetic and decimal output do it.
pub mod rounding;
/// JSON-RPC requests and responses.
pub mod rpc;
/// Text building blocks: decimal numerals, comparison, joining, trimming.
pub mod text;
/// Sums over sequences.
pub mod totals;
/// Token estimation heuristics.
pub mod tokens;
