//! Measurements and the events that carry them to a sink's dispatcher.

use std::sync::Arc;
use vstd::prelude::*;

verus! {

/// What kind of observation a measurement records.
#[derive(Clone, Copy, Debug, PartialEq, Eq)]
pub enum MeasurementKind {
    Counter,
    Gauge,
    Timer,
    Line,
}

/// The observed value: numeric for metrics, textual for log lines.
#[derive(Clone, Debug, PartialEq, Eq)]
pub enum MeasurementValue {
    Number(i64),
    Text(String),
}

/// One observed metric value or log line.
///
/// Immutable once created by the ingestion layer; fan-out shares it by
/// reference across every sink that receives it.
#[derive(Clone, Debug, PartialEq, Eq)]
pub struct Measurement {
    pub name: String,
    pub value: MeasurementValue,
    pub tags: Vec<(String, String)>,
    pub timestamp: i64,
    pub kind: MeasurementKind,
}

/// Which protocol listener produced a batch of measurements.
#[derive(Clone, Copy, Debug, PartialEq, Eq)]
pub enum SourceKind {
    Graphite,
    Statsd,
}

/// Wire encoding of a pre-encoded payload handed to a raw-payload sink.
#[derive(Clone, Copy, Debug, PartialEq, Eq)]
pub enum Encoding {
    Raw,
    Json,
}

/// Unit of work delivered to a sink's dispatcher: a periodic flush signal,
/// or an ordered batch of measurements from one protocol source.
#[derive(Clone, Debug)]
pub enum Event {
    FlushTick,
    MeasurementBatch { source: SourceKind, measurements: Vec<Arc<Measurement>> },
}

} // verus!
