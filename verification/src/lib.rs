//! Delivery core of a telemetry aggregation daemon.
//!
//! Measurement events stream in from protocol listeners and are routed to
//! independently configured output backends ("sinks"). This crate holds the
//! sink contract, the per-sink dispatch step, the backpressure valve, and the
//! batched delivery-with-retry engine that tracks in-flight payloads, keeps
//! the four outcome counters, and resubmits recoverable failures.

pub mod measurement;
pub mod sink;
