//! An in-process tracing and profiling subsystem.
//!
//! The library observes structured spans (hierarchical timed scopes) and
//! events (point-in-time log records), aggregates per-span running
//! statistics, optionally records individual span runs to a bounded byte
//! log, and encodes all of this into a binary wire protocol for an external
//! debugger UI. Plain log records are formatted for local sinks.
//!
//! Every data structure and algorithm here carries a contract checked by
//! Verus: span identity packing, instance-id allocation and reuse,
//! reference-counted span lifetime, the per-thread span stack, the
//! fixed-capacity log buffers with silent truncation, the TLV field
//! encoding, the wire codec with its handshake, and the per-span
//! aggregation store.

mod clock;
pub mod codec;
pub mod config;
pub mod deser;
pub mod duration;
pub mod fields;
pub mod hello;
mod ids;
pub mod level;
pub mod log_msg;
pub mod logsink;
pub mod registry;
pub mod sink;
pub mod stack;
pub mod store;
pub mod text;
pub mod wire;
pub mod worker;

pub use ids::SpanId;
