//! A peer-to-peer throughput benchmark core: the wire codec for the run
//! receipt, the per-run state machine for the initiator and responder roles,
//! and the orchestrator that maps connections to runs and republishes each
//! run's outcome as a single event.
//!
//! The core is transport-agnostic: it assumes an already-negotiated, ordered,
//! reliable, bidirectional byte stream per run, driven from outside through
//! non-blocking read/write/half-close notifications. All stream and clock
//! input enters as plain values (byte counts, byte slices, monotonic
//! timestamps in nanoseconds), so the protocol logic itself is fully verified.

pub mod codec;
pub mod outcome;
pub mod orchestrator;
pub mod run;
pub mod transport_security;
