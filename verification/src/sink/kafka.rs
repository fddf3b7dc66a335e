//! Broker-backed sink: batched asynchronous delivery with retry.
//!
//! Payloads are handed to an injected [`Transport`] and tracked in an
//! ordered in-flight collection together with a running byte total that
//! drives the backpressure valve. When the in-flight deliveries complete,
//! each outcome is classified: a success and a non-recoverable failure are
//! terminal and counted; a recognized transient error whose original bytes
//! came back is counted and resubmitted with identical key and bytes.
//! The flush cycle repeats this until nothing is left in flight.

use crate::measurement::{Encoding, Measurement};
use crate::sink::{Sink, Valve};
use std::collections::HashMap;
use std::sync::Arc;
use vstd::prelude::*;

verus! {

/// Configuration of a broker-backed sink, consumed at construction.
pub struct KafkaConfig {
    /// Canonical name for the given sink.
    pub config_path: Option<String>,
    /// Topic to publish to. Required.
    pub topic_name: Option<String>,
    /// Brokers, as a comma-separated list of host or host:port. Required.
    pub brokers: Option<String>,
    /// Free-form options handed to the transport client verbatim.
    pub rdkafka_config: Option<HashMap<String, String>>,
    /// Ceiling on in-flight bytes; at or above it the valve closes.
    /// Default = 10Mb.
    pub max_message_bytes: usize,
    /// How often (seconds) the in-flight deliveries are checked.
    /// Default = 1 second.
    pub flush_interval: u64,
}

impl Default for KafkaConfig {
    fn default() -> (config: KafkaConfig)
        ensures
            config.config_path is None,
            config.topic_name is None,
            config.brokers is None,
            config.rdkafka_config is None,
            config.max_message_bytes == 10485760,
            config.flush_interval == 1,
    {
        KafkaConfig {
            config_path: None,
            topic_name: None,
            brokers: None,
            rdkafka_config: None,
            max_message_bytes: 10485760,
            flush_interval: 1,
        }
    }
}

/// A required sink parameter was missing at construction time.
#[derive(Clone, Copy, Debug, PartialEq, Eq, Structural)]
pub enum ConfigError {
    MissingTopic,
    MissingBrokers,
}

/// One pre-encoded payload together with the dispatch key under which it
/// was submitted. The key carries partition and retry identity downstream.
pub struct Payload {
    pub key: Vec<u8>,
    pub bytes: Vec<u8>,
}

/// Mathematical model of a payload: its key and bytes as sequences.
pub ghost struct PayloadModel {
    pub key: Seq<u8>,
    pub bytes: Seq<u8>,
}

impl View for Payload {
    type V = PayloadModel;

    open spec fn view(&self) -> PayloadModel {
        PayloadModel { key: self.key@, bytes: self.bytes@ }
    }
}

/// Transport error conditions the engine recognizes. Every condition here
/// but `Unrecognized` is on the transient list: resolved by resubmission.
#[derive(Clone, Copy, Debug, PartialEq, Eq, Structural)]
pub enum TransportErrorKind {
    InvalidMessage,
    UnknownTopicOrPartition,
    LeaderNotAvailable,
    NotLeaderForPartition,
    RequestTimedOut,
    NetworkException,
    GroupLoadInProgress,
    GroupCoordinatorNotAvailable,
    NotCoordinatorForGroup,
    NotEnoughReplicas,
    NotEnoughReplicasAfterAppend,
    NotController,
    /// Any error condition not on the recognized transient list.
    Unrecognized,
}

/// Whether an error condition is on the recognized transient list.
pub open spec fn is_transient(kind: TransportErrorKind) -> bool {
    !(kind is Unrecognized)
}

impl TransportErrorKind {
    /// Runtime test of membership on the recognized transient list.
    pub fn transient(&self) -> (r: bool)
        ensures
            r == is_transient(*self),
    {
        match self {
            TransportErrorKind::Unrecognized => false,
            _ => true,
        }
    }
}

/// What the transport reports for one in-flight delivery.
///
/// `Rejected` carries the original payload back when the transport could
/// recover it from the failure signal; `Faulted` is any other failure shape
/// (for example, a completion signal that was dropped).
pub enum TransportOutcome {
    Delivered,
    Rejected { kind: TransportErrorKind, payload: Option<Payload> },
    Faulted,
}

/// Mathematical model of a transport outcome.
pub ghost enum OutcomeModel {
    Delivered,
    Rejected { kind: TransportErrorKind, payload: Option<PayloadModel> },
    Faulted,
}

impl View for TransportOutcome {
    type V = OutcomeModel;

    open spec fn view(&self) -> OutcomeModel {
        match self {
            TransportOutcome::Delivered => OutcomeModel::Delivered,
            TransportOutcome::Rejected { kind, payload } => OutcomeModel::Rejected {
                kind: *kind,
                payload: match payload {
                    Some(p) => Some(p@),
                    None => None,
                },
            },
            TransportOutcome::Faulted => OutcomeModel::Faulted,
        }
    }
}

/// The models of a sequence of outcomes, in order.
pub open spec fn outcome_views(outcomes: Seq<TransportOutcome>) -> Seq<OutcomeModel> {
    outcomes.map_values(|o: TransportOutcome| o@)
}

/// Terminal or retry disposition of one classified outcome.
pub ghost enum Disposition {
    Delivered,
    Retry(PayloadModel),
    Fatal,
    RetryLost,
}

/// Classification of one outcome, in priority order: success is terminal;
/// a recognized transient error with the original payload is retried with
/// that exact payload; an error that brought the payload back but is not on
/// the transient list is fatal; an error without the original payload is a
/// lost retry whatever its cause, since the engine never reconstructs or
/// guesses bytes; any other failure shape is fatal.
pub open spec fn classify(outcome: OutcomeModel) -> Disposition {
    match outcome {
        OutcomeModel::Delivered => Disposition::Delivered,
        OutcomeModel::Rejected { kind, payload } => match payload {
            Some(p) => if is_transient(kind) {
                Disposition::Retry(p)
            } else {
                Disposition::Fatal
            },
            None => Disposition::RetryLost,
        },
        OutcomeModel::Faulted => Disposition::Fatal,
    }
}

/// The four monotonically increasing delivery counters.
#[derive(Clone, Copy, Debug, PartialEq, Eq, Structural)]
pub struct Counters {
    /// Payloads acknowledged by the transport.
    pub success: u64,
    /// Retries issued for recognized transient errors.
    pub retry: u64,
    /// Payloads dropped on a non-recoverable error.
    pub failure: u64,
    /// Transient failures whose original payload could not be recovered.
    pub retry_lost: u64,
}

impl Counters {
    /// Fresh counters, all zero.
    pub fn new() -> (c: Counters)
        ensures
            c == (Counters { success: 0, retry: 0, failure: 0, retry_lost: 0 }),
    {
        Counters { success: 0, retry: 0, failure: 0, retry_lost: 0 }
    }
}

/// A count after one more observation; the counter holds at the
/// representable ceiling rather than wrapping.
pub open spec fn bumped(count: u64) -> u64 {
    if count < u64::MAX {
        (count + 1) as u64
    } else {
        count
    }
}

fn bump(count: u64) -> (r: u64)
    ensures
        r == bumped(count),
{
    if count < u64::MAX {
        count + 1
    } else {
        count
    }
}

/// The counters after recording one classified outcome: exactly one counter
/// moves, chosen by the outcome's disposition.
pub open spec fn count_outcome(c: Counters, outcome: OutcomeModel) -> Counters {
    match classify(outcome) {
        Disposition::Delivered => Counters { success: bumped(c.success), ..c },
        Disposition::Retry(_) => Counters { retry: bumped(c.retry), ..c },
        Disposition::Fatal => Counters { failure: bumped(c.failure), ..c },
        Disposition::RetryLost => Counters { retry_lost: bumped(c.retry_lost), ..c },
    }
}

/// The counters after recording a sequence of outcomes in order.
pub open spec fn counters_after(c: Counters, outcomes: Seq<OutcomeModel>) -> Counters
    decreases outcomes.len(),
{
    if outcomes.len() == 0 {
        c
    } else {
        count_outcome(counters_after(c, outcomes.drop_last()), outcomes.last())
    }
}

/// The payloads a sequence of outcomes sends back into flight: exactly the
/// recovered payloads of recognized transient errors, in outcome order.
pub open spec fn retries_of(outcomes: Seq<OutcomeModel>) -> Seq<PayloadModel>
    decreases outcomes.len(),
{
    if outcomes.len() == 0 {
        Seq::empty()
    } else {
        retries_of(outcomes.drop_last()) + (match classify(outcomes.last()) {
            Disposition::Retry(p) => seq![p],
            _ => Seq::empty(),
        })
    }
}

/// Total byte length of a sequence of in-flight payloads.
pub open spec fn payload_bytes(payloads: Seq<PayloadModel>) -> nat
    decreases payloads.len(),
{
    if payloads.len() == 0 {
        0
    } else {
        payload_bytes(payloads.drop_last()) + payloads.last().bytes.len()
    }
}

/// Uppercase hexadecimal digit for a value below sixteen.
pub open spec fn hex_digit(d: u64) -> u8
    recommends
        d < 16,
{
    if d < 10 {
        (0x30 + d) as u8
    } else {
        (0x37 + d) as u8
    }
}

/// Uppercase hexadecimal rendering of a dispatch key, most significant
/// digit first, no leading zeros.
pub open spec fn hex_key(n: u64) -> Seq<u8>
    decreases n,
{
    if n < 16 {
        seq![hex_digit(n)]
    } else {
        hex_key(n / 16).push(hex_digit(n % 16))
    }
}

fn push_hex_digits(n: u64, out: &mut Vec<u8>)
    ensures
        final(out)@ == old(out)@ + hex_key(n),
    decreases n,
{
    if n >= 16 {
        push_hex_digits(n / 16, out);
    }
    let d: u64 = n % 16;
    let digit: u8 = if d < 10 {
        0x30 + (d as u8)
    } else {
        0x37 + (d as u8)
    };
    out.push(digit);
    proof {
        if n < 16 {
            assert(old(out)@ + hex_key(n) =~= old(out)@.push(hex_digit(n)));
        } else {
            assert(old(out)@ + hex_key(n) =~= (old(out)@ + hex_key(n / 16)).push(
                hex_digit(n % 16),
            ));
        }
    }
}

/// The dispatch key under which a payload ordered by `n` is submitted.
fn render_key(n: u64) -> (key: Vec<u8>)
    ensures
        key@ == hex_key(n),
{
    let mut key: Vec<u8> = Vec::new();
    push_hex_digits(n, &mut key);
    proof {
        assert(key@ =~= hex_key(n));
    }
    key
}

/// The asynchronous delivery channel behind the sink: `send` hands one
/// payload to the broker without blocking for completion; `collect` waits
/// for every delivery handed over since the previous `collect` and reports
/// one outcome per delivery, in submission order. Implementations perform
/// the network work; the engine's guarantees hold for every implementation.
pub trait Transport {
    fn send(&mut self, topic: &str, key: &[u8], bytes: &[u8]);

    fn collect(&mut self) -> Vec<TransportOutcome>;
}

/// Broker-backed sink state: the delivery engine.
pub struct Kafka<T: Transport> {
    /// Name of the stream being published to.
    pub topic_name: String,
    /// The asynchronous delivery channel.
    pub transport: T,
    /// In-flight payloads, in submission order.
    pub in_flight: Vec<Payload>,
    /// Total byte length of in-flight payloads; opens and closes the valve.
    pub message_bytes: usize,
    /// Ceiling on in-flight bytes; at or above it the valve closes.
    pub max_message_bytes: usize,
    /// How often (seconds) the in-flight deliveries are checked.
    pub flush_interval: u64,
    /// The four delivery counters.
    pub counters: Counters,
}

impl<T: Transport> Kafka<T> {
    /// The models of the in-flight payloads, in submission order.
    pub open spec fn in_flight_model(&self) -> Seq<PayloadModel> {
        self.in_flight@.map_values(|p: Payload| p@)
    }

    /// The byte-accounting invariant: the running total equals the summed
    /// length of the in-flight payloads. Established at construction,
    /// preserved by submission, and re-established when the flush cycle
    /// settles.
    pub open spec fn wf(&self) -> bool {
        self.message_bytes == payload_bytes(self.in_flight_model())
    }

    /// Build the sink from its configuration and a transport.
    ///
    /// A missing topic or broker list is a construction-time error and the
    /// sink must not start; otherwise the engine begins empty, with zeroed
    /// counters and the configured ceiling and flush cadence.
    pub fn init(config: KafkaConfig, transport: T) -> (r: Result<Kafka<T>, ConfigError>)
        ensures
            match r {
                Ok(sink) => {
                    &&& config.topic_name == Some(sink.topic_name)
                    &&& config.brokers is Some
                    &&& sink.in_flight_model() =~= Seq::<PayloadModel>::empty()
                    &&& sink.message_bytes == 0
                    &&& sink.max_message_bytes == config.max_message_bytes
                    &&& sink.flush_interval == config.flush_interval
                    &&& sink.counters == (Counters {
                        success: 0,
                        retry: 0,
                        failure: 0,
                        retry_lost: 0,
                    })
                    &&& sink.wf()
                },
                Err(e) => {
                    &&& config.topic_name is None || config.brokers is None
                    &&& e == (if config.topic_name is None {
                        ConfigError::MissingTopic
                    } else {
                        ConfigError::MissingBrokers
                    })
                },
            },
    {
        if config.brokers.is_none() {
            if config.topic_name.is_none() {
                return Err(ConfigError::MissingTopic);
            }
            return Err(ConfigError::MissingBrokers);
        }
        let topic_name = match config.topic_name {
            Some(name) => name,
            None => {
                return Err(ConfigError::MissingTopic);
            },
        };
        let sink = Kafka {
            topic_name,
            transport,
            in_flight: Vec::new(),
            message_bytes: 0,
            max_message_bytes: config.max_message_bytes,
            flush_interval: config.flush_interval,
            counters: Counters::new(),
        };
        proof {
            assert(sink.in_flight_model() =~= Seq::<PayloadModel>::empty());
        }
        Ok(sink)
    }

    /// The valve is `Closed` exactly when the in-flight byte total has
    /// reached the configured ceiling, and `Open` otherwise.
    pub fn valve_state(&self) -> (v: Valve)
        ensures
            (v == Valve::Closed) <==> self.message_bytes >= self.max_message_bytes,
            (v == Valve::Open) <==> self.message_bytes < self.max_message_bytes,
    {
        if self.message_bytes < self.max_message_bytes {
            Valve::Open
        } else {
            Valve::Closed
        }
    }

    /// This sink consumes pre-encoded payloads only: a structured
    /// measurement is discarded and the engine is left unchanged.
    pub fn deliver(&mut self, _point: Arc<Measurement>)
        ensures
            *final(self) == *old(self),
    {
    }

    /// A log line is discarded the same way.
    pub fn deliver_line(&mut self, _line: Arc<Measurement>)
        ensures
            *final(self) == *old(self),
    {
    }

    /// Submit one pre-encoded payload: hand it to the transport without
    /// blocking for completion, append it to the in-flight collection under
    /// the uppercase-hexadecimal key of `order_by`, and grow the running
    /// byte total by the payload length.
    pub fn deliver_raw(&mut self, order_by: u64, _encoding: Encoding, bytes: Vec<u8>)
        requires
            old(self).message_bytes + bytes@.len() <= usize::MAX,
        ensures
            final(self).in_flight_model() == old(self).in_flight_model().push(
                PayloadModel { key: hex_key(order_by), bytes: bytes@ },
            ),
            final(self).message_bytes == old(self).message_bytes + bytes@.len(),
            final(self).counters == old(self).counters,
            final(self).topic_name == old(self).topic_name,
            final(self).max_message_bytes == old(self).max_message_bytes,
            final(self).flush_interval == old(self).flush_interval,
            old(self).wf() ==> final(self).wf(),
    {
        let length = bytes.len();
        let key = render_key(order_by);
        self.transport.send(self.topic_name.as_str(), key.as_slice(), bytes.as_slice());
        self.in_flight.push(Payload { key, bytes });
        self.message_bytes = self.message_bytes + length;
        proof {
            let before = old(self).in_flight_model();
            let added = PayloadModel { key: hex_key(order_by), bytes: bytes@ };
            assert(self.in_flight_model() =~= before.push(added));
            assert(before.push(added).drop_last() =~= before);
            assert(payload_bytes(before.push(added)) == payload_bytes(before) + bytes@.len());
        }
    }

    /// Record the completion of the current in-flight deliveries.
    ///
    /// `outcomes` reports one completion per in-flight delivery, in
    /// submission order. Each outcome moves exactly the counter its
    /// classification names; the payloads of recognized transient errors
    /// are resubmitted to the transport with identical key and bytes, and
    /// they alone make up the new in-flight collection, in outcome order.
    /// A payload whose outcome was terminal is gone: it never reappears in
    /// a later submission. The running byte total is left for `flush` to
    /// settle.
    pub fn apply_outcomes(&mut self, outcomes: Vec<TransportOutcome>)
        ensures
            final(self).in_flight_model() == retries_of(outcome_views(outcomes@)),
            final(self).counters == counters_after(
                old(self).counters,
                outcome_views(outcomes@),
            ),
            final(self).message_bytes == old(self).message_bytes,
            final(self).topic_name == old(self).topic_name,
            final(self).max_message_bytes == old(self).max_message_bytes,
            final(self).flush_interval == old(self).flush_interval,
    {
        let ghost all: Seq<OutcomeModel> = outcome_views(outcomes@);
        let ghost start: Counters = self.counters;
        let mut rest = outcomes;
        let mut retained: Vec<Payload> = Vec::new();
        while rest.len() > 0
            invariant
                rest@.len() <= all.len(),
                outcome_views(rest@) == all.skip(all.len() - rest@.len()),
                self.counters == counters_after(start, all.take(all.len() - rest@.len())),
                retained@.map_values(|p: Payload| p@) == retries_of(
                    all.take(all.len() - rest@.len()),
                ),
                self.message_bytes == old(self).message_bytes,
                self.topic_name == old(self).topic_name,
                self.max_message_bytes == old(self).max_message_bytes,
                self.flush_interval == old(self).flush_interval,
                start == old(self).counters,
            decreases rest@.len(),
        {
            let ghost done = all.len() - rest@.len();
            let ghost rest_before = rest@;
            let outcome = rest.remove(0);
            proof {
                assert(outcome_views(rest_before)[0] == outcome@);
                assert(outcome@ == all[done]);
                assert forall|j: int| 0 <= j < rest@.len() implies #[trigger] outcome_views(
                    rest@,
                )[j] == all.skip(done + 1)[j] by {
                    assert(rest@[j] == rest_before[j + 1]);
                    assert(outcome_views(rest_before)[j + 1] == rest_before[j + 1]@);
                    assert(all.skip(done)[j + 1] == all[done + 1 + j]);
                }
                assert(outcome_views(rest@) =~= all.skip(done + 1));
                assert(all.take(done + 1).drop_last() =~= all.take(done));
                assert(all.take(done + 1).last() == all[done]);
            }
            let ghost counters_before = self.counters;
            let ghost retained_before = retained@.map_values(|p: Payload| p@);
            match outcome {
                TransportOutcome::Delivered => {
                    self.counters.success = bump(self.counters.success);
                },
                TransportOutcome::Rejected { kind, payload } => {
                    match payload {
                        Some(p) => {
                            if kind.transient() {
                                self.counters.retry = bump(self.counters.retry);
                                self.transport.send(
                                    self.topic_name.as_str(),
                                    p.key.as_slice(),
                                    p.bytes.as_slice(),
                                );
                                retained.push(p);
                            } else {
                                self.counters.failure = bump(self.counters.failure);
                            }
                        },
                        None => {
                            self.counters.retry_lost = bump(self.counters.retry_lost);
                        },
                    }
                },
                TransportOutcome::Faulted => {
                    self.counters.failure = bump(self.counters.failure);
                },
            }
            proof {
                assert(self.counters == count_outcome(counters_before, all[done]));
                assert(self.counters == counters_after(start, all.take(done + 1)));
                match classify(all[done]) {
                    Disposition::Retry(p) => {
                        assert(retained@.map_values(|q: Payload| q@) =~= retained_before.push(
                            p,
                        ));
                        assert(retries_of(all.take(done + 1)) =~= retained_before.push(p));
                    },
                    _ => {
                        assert(retries_of(all.take(done + 1)) =~= retained_before);
                    },
                }
            }
        }
        proof {
            assert(all.take(all.len() - rest@.len()) =~= all);
        }
        self.in_flight = retained;
    }

    /// Run up to `max_rounds` rounds of the flush cycle: await every
    /// in-flight delivery, classify each outcome, resubmit recognized
    /// transient failures, and repeat. The cycle converges when a round
    /// leaves nothing in flight; `done` says whether it has.
    ///
    /// Once done, the in-flight collection is empty and the running byte
    /// total is zero, so the valve is open again: every payload accepted
    /// so far has been delivered or accounted as failed in the counters,
    /// which never decrease. Not done, nothing has been settled yet and
    /// the byte total stands. The cycle as a whole has no inherent round
    /// bound — persistent transient failures are retried rather than
    /// dropped — so a driver repeats this until `done`; the bound is what
    /// lets each call be proved to return.
    pub fn flush_rounds(&mut self, max_rounds: usize) -> (done: bool)
        ensures
            done <==> final(self).in_flight@.len() == 0,
            done ==> final(self).message_bytes == 0,
            done ==> final(self).wf(),
            !done ==> final(self).message_bytes == old(self).message_bytes,
            final(self).counters.success >= old(self).counters.success,
            final(self).counters.retry >= old(self).counters.retry,
            final(self).counters.failure >= old(self).counters.failure,
            final(self).counters.retry_lost >= old(self).counters.retry_lost,
            final(self).topic_name == old(self).topic_name,
            final(self).max_message_bytes == old(self).max_message_bytes,
            final(self).flush_interval == old(self).flush_interval,
    {
        let mut rounds_left = max_rounds;
        while self.in_flight.len() > 0 && rounds_left > 0
            invariant
                self.counters.success >= old(self).counters.success,
                self.counters.retry >= old(self).counters.retry,
                self.counters.failure >= old(self).counters.failure,
                self.counters.retry_lost >= old(self).counters.retry_lost,
                self.message_bytes == old(self).message_bytes,
                self.topic_name == old(self).topic_name,
                self.max_message_bytes == old(self).max_message_bytes,
                self.flush_interval == old(self).flush_interval,
            decreases rounds_left,
        {
            let ghost counters_before = self.counters;
            let outcomes = self.transport.collect();
            self.apply_outcomes(outcomes);
            proof {
                lemma_counters_never_decrease(counters_before, outcome_views(outcomes@));
            }
            rounds_left = rounds_left - 1;
        }
        if self.in_flight.len() == 0 {
            self.message_bytes = 0;
            proof {
                assert(self.in_flight_model() =~= Seq::<PayloadModel>::empty());
            }
            true
        } else {
            false
        }
    }

    /// The cadence, in seconds, on which the dispatcher injects a flush
    /// signal into this sink's stream.
    pub fn flush_interval(&self) -> (r: Option<u64>)
        ensures
            r == Some(self.flush_interval),
    {
        Some(self.flush_interval)
    }

    /// Consume the sink, settling whatever is still in flight first: the
    /// flush cycle is driven until it converges or the whole representable
    /// round budget — beyond anything a run can reach — is spent.
    pub fn shutdown(self) {
        let mut sink = self;
        let _settled = sink.flush_rounds(usize::MAX);
    }
}

impl<T: Transport> Sink for Kafka<T> {
    fn deliver(&mut self, _point: Arc<Measurement>) {
    }

    fn flush(&mut self) {
        let _settled = self.flush_rounds(usize::MAX);
    }
}

/// Law: under the byte-accounting invariant, the running total the valve
/// is computed from equals the summed length of the in-flight payloads,
/// so the valve is closed exactly when that sum has reached the ceiling.
/// `valve_state`'s own contract then carries this to every moment the
/// invariant holds: immediately after construction, after every
/// submission, and after every settled flush cycle.
pub proof fn lemma_valve_tracks_in_flight<T: Transport>(sink: Kafka<T>)
    requires
        sink.wf(),
    ensures
        (sink.message_bytes >= sink.max_message_bytes) <==> (payload_bytes(
            sink.in_flight_model(),
        ) >= sink.max_message_bytes),
{
}

/// Law: recording outcomes never decreases any counter, whatever the
/// outcomes were.
pub proof fn lemma_counters_never_decrease(c: Counters, outcomes: Seq<OutcomeModel>)
    ensures
        counters_after(c, outcomes).success >= c.success,
        counters_after(c, outcomes).retry >= c.retry,
        counters_after(c, outcomes).failure >= c.failure,
        counters_after(c, outcomes).retry_lost >= c.retry_lost,
    decreases outcomes.len(),
{
    if outcomes.len() > 0 {
        lemma_counters_never_decrease(c, outcomes.drop_last());
    }
}

/// Law: recording outcomes decomposes over concatenation, so each payload's
/// outcome contributes its own classification's increment, independently of
/// the outcomes around it.
pub proof fn lemma_counters_after_concat(c: Counters, left: Seq<OutcomeModel>, right: Seq<
    OutcomeModel,
>)
    ensures
        counters_after(c, left + right) == counters_after(counters_after(c, left), right),
    decreases right.len(),
{
    if right.len() == 0 {
        assert(left + right =~= left);
    } else {
        lemma_counters_after_concat(c, left, right.drop_last());
        assert((left + right).drop_last() =~= left + right.drop_last());
        assert((left + right).last() == right.last());
    }
}

/// Law: the resubmitted payloads decompose over concatenation the same way.
pub proof fn lemma_retries_of_concat(left: Seq<OutcomeModel>, right: Seq<OutcomeModel>)
    ensures
        retries_of(left + right) == retries_of(left) + retries_of(right),
    decreases right.len(),
{
    if right.len() == 0 {
        assert(left + right =~= left);
        assert(retries_of(left) + retries_of(right) =~= retries_of(left));
    } else {
        lemma_retries_of_concat(left, right.drop_last());
        assert((left + right).drop_last() =~= left + right.drop_last());
        assert((left + right).last() == right.last());
        assert(retries_of(left) + retries_of(right) =~= (retries_of(left) + retries_of(
            right.drop_last(),
        )) + (match classify(right.last()) {
            Disposition::Retry(p) => seq![p],
            _ => Seq::<PayloadModel>::empty(),
        }));
    }
}

/// Law: a payload whose transport outcome is success moves the success
/// counter by exactly one and no other counter, and is not resubmitted.
pub proof fn lemma_success_is_terminal(c: Counters)
    ensures
        counters_after(c, seq![OutcomeModel::Delivered]).success == bumped(c.success),
        counters_after(c, seq![OutcomeModel::Delivered]).retry == c.retry,
        counters_after(c, seq![OutcomeModel::Delivered]).failure == c.failure,
        counters_after(c, seq![OutcomeModel::Delivered]).retry_lost == c.retry_lost,
        retries_of(seq![OutcomeModel::Delivered]) =~= Seq::<PayloadModel>::empty(),
{
    lemma_single_outcome(c, OutcomeModel::Delivered);
}

/// Law: a recognized transient error whose original payload came back moves
/// the retry counter by exactly one and no other counter, and exactly that
/// payload, with identical key and bytes, is resubmitted.
pub proof fn lemma_transient_is_resubmitted(
    c: Counters,
    kind: TransportErrorKind,
    p: PayloadModel,
)
    requires
        is_transient(kind),
    ensures
        counters_after(c, seq![OutcomeModel::Rejected { kind, payload: Some(p) }]).retry
            == bumped(c.retry),
        counters_after(c, seq![OutcomeModel::Rejected { kind, payload: Some(p) }]).success
            == c.success,
        counters_after(c, seq![OutcomeModel::Rejected { kind, payload: Some(p) }]).failure
            == c.failure,
        counters_after(c, seq![OutcomeModel::Rejected { kind, payload: Some(p) }]).retry_lost
            == c.retry_lost,
        retries_of(seq![OutcomeModel::Rejected { kind, payload: Some(p) }]) =~= seq![p],
{
    lemma_single_outcome(c, OutcomeModel::Rejected { kind, payload: Some(p) });
}

/// Law: an error outside the transient list whose payload came back, and
/// any unknown failure shape, move the failure counter by exactly one and
/// no other counter, and nothing is resubmitted.
pub proof fn lemma_fatal_is_terminal(c: Counters, outcome: OutcomeModel)
    requires
        classify(outcome) is Fatal,
    ensures
        counters_after(c, seq![outcome]).failure == bumped(c.failure),
        counters_after(c, seq![outcome]).success == c.success,
        counters_after(c, seq![outcome]).retry == c.retry,
        counters_after(c, seq![outcome]).retry_lost == c.retry_lost,
        retries_of(seq![outcome]) =~= Seq::<PayloadModel>::empty(),
{
    lemma_single_outcome(c, outcome);
}

/// Law: a transport error that did not bring the original payload back,
/// whatever its cause, moves the retry-lost counter by exactly one and no
/// other counter, and nothing is resubmitted: the engine never reconstructs
/// a payload it cannot recover.
pub proof fn lemma_lost_retry_is_terminal(c: Counters, kind: TransportErrorKind)
    ensures
        counters_after(c, seq![OutcomeModel::Rejected { kind, payload: None }]).retry_lost
            == bumped(c.retry_lost),
        counters_after(c, seq![OutcomeModel::Rejected { kind, payload: None }]).success
            == c.success,
        counters_after(c, seq![OutcomeModel::Rejected { kind, payload: None }]).retry == c.retry,
        counters_after(c, seq![OutcomeModel::Rejected { kind, payload: None }]).failure
            == c.failure,
        retries_of(seq![OutcomeModel::Rejected { kind, payload: None }]) =~= Seq::<
            PayloadModel,
        >::empty(),
{
    lemma_single_outcome(c, OutcomeModel::Rejected { kind, payload: None });
}

proof fn lemma_single_outcome(c: Counters, outcome: OutcomeModel)
    ensures
        counters_after(c, seq![outcome]) == count_outcome(c, outcome),
        retries_of(seq![outcome]) == (match classify(outcome) {
            Disposition::Retry(p) => seq![p],
            _ => Seq::<PayloadModel>::empty(),
        }),
{
    assert(seq![outcome].drop_last() =~= Seq::<OutcomeModel>::empty());
    assert(seq![outcome].last() == outcome);
    assert(counters_after(c, Seq::<OutcomeModel>::empty()) == c);
    assert(retries_of(Seq::<OutcomeModel>::empty()) == Seq::<PayloadModel>::empty());
    assert(Seq::<PayloadModel>::empty() + (match classify(outcome) {
        Disposition::Retry(p) => seq![p],
        _ => Seq::<PayloadModel>::empty(),
    }) =~= (match classify(outcome) {
        Disposition::Retry(p) => seq![p],
        _ => Seq::<PayloadModel>::empty(),
    }));
}

} // verus!
