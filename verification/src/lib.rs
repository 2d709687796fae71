//! Client side of the stats engine's binary protocol, and the in-memory
//! snapshot of the telemetry it reports.

pub mod connection;
pub mod error;
pub mod fixture;
pub mod memory;
pub mod stats;
pub mod string_map;
pub mod testing;
pub mod wire;
