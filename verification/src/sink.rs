//! The sink contract, the backpressure valve, and the dispatch step that
//! turns one inbound event into the ordered calls a sink receives.

use crate::measurement::{Event, Measurement};
use std::sync::Arc;
use vstd::prelude::*;

pub mod kafka;

verus! {

/// Backpressure signal a sink reports about its own saturation.
///
/// `Closed` is the sink's declaration that upstream fan-out to this sink
/// should pause; the sink alone computes it from its internal accounting.
#[derive(Clone, Copy, Debug, PartialEq, Eq, Structural)]
pub enum Valve {
    Open,
    Closed,
}

/// The uniform contract every delivery backend implements.
///
/// `deliver` accepts one measurement for buffering or transmission and must
/// not block the dispatch loop beyond bounded, backend-internal work.
/// `flush` drains buffered and in-flight state: when it returns, every
/// measurement accepted so far has been handed off or accounted as failed;
/// blocking is permitted and expected.
pub trait Sink {
    fn deliver(&mut self, point: Arc<Measurement>);

    fn flush(&mut self);
}

/// One call a dispatcher makes on its sink.
#[derive(Clone, Debug, PartialEq)]
pub enum SinkCall {
    Flush,
    Deliver(Arc<Measurement>),
}

/// Translate one event into the ordered sequence of calls the sink receives.
///
/// A flush signal becomes a single `Flush` call; a measurement batch becomes
/// one `Deliver` call per measurement, in exactly the order the measurements
/// appeared within their originating batch, for every batch size including
/// zero. The dispatcher performs these calls in order on its own sink, so
/// delivery order to a single sink matches batch order.
pub fn dispatch(event: Event) -> (calls: Vec<SinkCall>)
    ensures
        match event {
            Event::FlushTick => calls@ =~= seq![SinkCall::Flush],
            Event::MeasurementBatch { source, measurements } => {
                &&& calls@.len() == measurements@.len()
                &&& forall|i: int|
                    0 <= i < calls@.len() ==> calls@[i] == SinkCall::Deliver(measurements@[i])
            },
        },
{
    match event {
        Event::FlushTick => {
            let mut calls: Vec<SinkCall> = Vec::new();
            calls.push(SinkCall::Flush);
            calls
        },
        Event::MeasurementBatch { source: _, measurements } => {
            let mut rest = measurements;
            let ghost batch: Seq<Arc<Measurement>> = rest@;
            let mut calls: Vec<SinkCall> = Vec::new();
            while rest.len() > 0
                invariant
                    calls@.len() + rest@.len() == batch.len(),
                    rest@ == batch.skip(calls@.len() as int),
                    forall|i: int|
                        0 <= i < calls@.len() ==> calls@[i] == SinkCall::Deliver(batch[i]),
                decreases rest@.len(),
            {
                let ghost done = calls@.len() as int;
                let point = rest.remove(0);
                proof {
                    assert(point == batch[done]);
                    assert(rest@ =~= batch.skip(done + 1));
                }
                calls.push(SinkCall::Deliver(point));
            }
            calls
        },
    }
}

} // verus!
