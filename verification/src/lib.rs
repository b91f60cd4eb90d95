//! Streaming conversion of a serial byte stream into readable text.
//!
//! The crate holds the decisions of a serial monitor: how a chunk of raw bytes is
//! rendered under a conversion mode, how the throughput counters of a reporting
//! window evolve, and when a rate report is due. Reading the device, writing the
//! sink and reading the clock are left to the caller, who hands in plain values.

pub mod config;
pub mod counters;
pub mod endian;
pub mod pipeline;
pub mod text;
pub mod token;
pub mod transform;
