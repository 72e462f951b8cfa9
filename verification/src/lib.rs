//! A monitor for an operator-chosen set of containers on one host: it gathers
//! what the container runtime and two probes tell of them, and publishes the
//! merged state as snapshots under rising generation numbers.
//!
//! The library decides and computes; its caller talks to the runtime, to the
//! network and to the clock. Every function here is verified against its
//! contract, but for the few that call outside code: their contracts say what
//! is trusted of it.
pub mod allowlist;
pub mod cache;
pub mod collector;
pub mod console;
pub mod containers;
pub mod control;
pub mod decimal;
pub mod environment;
pub mod frames;
pub mod lines;
pub mod logging;
pub mod merge;
pub mod model;
pub mod order;
pub mod ping;
pub mod ports;
pub mod records;
pub mod scheduler;
pub mod snapshot;
pub mod targets;
pub mod text;
pub mod timestamp;
pub mod uptime;
