//! Engine scenarios: submission, byte accounting and the valve, outcome
//! classification, and the retry cycle, driven by a scripted transport.

use sink_delivery::measurement::{Encoding, Measurement, MeasurementKind, MeasurementValue};
use std::sync::Arc;
use sink_delivery::sink::kafka::{
    ConfigError, Kafka, KafkaConfig, Transport, TransportErrorKind, TransportOutcome,
};
use sink_delivery::sink::Valve;

/// A transport that records every send and replays scripted outcome
/// rounds; once the script is spent it reports nothing outstanding.
struct ScriptedTransport {
    sent: Vec<(String, Vec<u8>, Vec<u8>)>,
    rounds: Vec<Vec<TransportOutcome>>,
}

impl ScriptedTransport {
    fn new(rounds: Vec<Vec<TransportOutcome>>) -> ScriptedTransport {
        ScriptedTransport { sent: Vec::new(), rounds }
    }
}

impl Transport for ScriptedTransport {
    fn send(&mut self, topic: &str, key: &[u8], bytes: &[u8]) {
        self.sent.push((topic.to_string(), key.to_vec(), bytes.to_vec()));
    }

    fn collect(&mut self) -> Vec<TransportOutcome> {
        if self.rounds.is_empty() {
            Vec::new()
        } else {
            self.rounds.remove(0)
        }
    }
}

fn config_with(max_message_bytes: usize) -> KafkaConfig {
    let mut config = KafkaConfig::default();
    config.topic_name = Some("events".to_string());
    config.brokers = Some("localhost:9092".to_string());
    config.max_message_bytes = max_message_bytes;
    config
}

fn engine(rounds: Vec<Vec<TransportOutcome>>) -> Kafka<ScriptedTransport> {
    match Kafka::init(config_with(10 * (1 << 20)), ScriptedTransport::new(rounds)) {
        Ok(sink) => sink,
        Err(e) => panic!("construction failed: {:?}", e),
    }
}

fn payload(key: &[u8], bytes: &[u8]) -> sink_delivery::sink::kafka::Payload {
    sink_delivery::sink::kafka::Payload { key: key.to_vec(), bytes: bytes.to_vec() }
}

#[test]
fn init_missing_topic_is_fatal() {
    let mut config = KafkaConfig::default();
    config.brokers = Some("localhost:9092".to_string());
    match Kafka::init(config, ScriptedTransport::new(Vec::new())) {
        Err(e) => assert_eq!(e, ConfigError::MissingTopic),
        Ok(_) => panic!("sink started without a topic"),
    }
}

#[test]
fn init_missing_brokers_is_fatal() {
    let mut config = KafkaConfig::default();
    config.topic_name = Some("events".to_string());
    match Kafka::init(config, ScriptedTransport::new(Vec::new())) {
        Err(e) => assert_eq!(e, ConfigError::MissingBrokers),
        Ok(_) => panic!("sink started without brokers"),
    }
}

#[test]
fn init_starts_empty() {
    let sink = engine(Vec::new());
    assert_eq!(sink.topic_name, "events");
    assert_eq!(sink.in_flight.len(), 0);
    assert_eq!(sink.message_bytes, 0);
    assert_eq!(sink.counters.success, 0);
    assert_eq!(sink.counters.retry, 0);
    assert_eq!(sink.counters.failure, 0);
    assert_eq!(sink.counters.retry_lost, 0);
    assert_eq!(sink.flush_interval(), Some(1));
}

#[test]
fn config_defaults() {
    let config = KafkaConfig::default();
    assert!(config.config_path.is_none());
    assert!(config.topic_name.is_none());
    assert!(config.brokers.is_none());
    assert!(config.rdkafka_config.is_none());
    assert_eq!(config.max_message_bytes, 10 * (1 << 20));
    assert_eq!(config.flush_interval, 1);
}

#[test]
fn deliver_raw_submits_under_hex_key() {
    let mut sink = engine(Vec::new());
    sink.deliver_raw(0x2A, Encoding::Raw, b"abc".to_vec());
    sink.deliver_raw(0, Encoding::Raw, b"d".to_vec());
    sink.deliver_raw(u64::MAX, Encoding::Raw, b"".to_vec());
    assert_eq!(sink.in_flight.len(), 3);
    assert_eq!(sink.message_bytes, 4);
    assert_eq!(sink.transport.sent.len(), 3);
    assert_eq!(sink.transport.sent[0], ("events".to_string(), b"2A".to_vec(), b"abc".to_vec()));
    assert_eq!(sink.transport.sent[1], ("events".to_string(), b"0".to_vec(), b"d".to_vec()));
    assert_eq!(
        sink.transport.sent[2],
        ("events".to_string(), b"FFFFFFFFFFFFFFFF".to_vec(), b"".to_vec()),
    );
    assert_eq!(sink.in_flight[0].key, b"2A".to_vec());
    assert_eq!(sink.in_flight[0].bytes, b"abc".to_vec());
}

#[test]
fn measurements_are_discarded() {
    let mut sink = engine(Vec::new());
    let point = Arc::new(Measurement {
        name: "cpu".to_string(),
        value: MeasurementValue::Number(1),
        tags: Vec::new(),
        timestamp: 0,
        kind: MeasurementKind::Gauge,
    });
    sink.deliver(point.clone());
    sink.deliver_line(point);
    assert_eq!(sink.in_flight.len(), 0);
    assert_eq!(sink.message_bytes, 0);
    assert_eq!(sink.counters.success, 0);
}

#[test]
fn valve_closes_at_the_ceiling() {
    let mut sink = Kafka::init(config_with(10 * (1 << 20)), ScriptedTransport::new(Vec::new()))
        .ok()
        .unwrap();
    let four_mb = vec![7u8; 4 * (1 << 20)];
    sink.deliver_raw(1, Encoding::Raw, four_mb.clone());
    sink.deliver_raw(2, Encoding::Raw, four_mb.clone());
    assert_eq!(sink.message_bytes, 8 * (1 << 20));
    assert_eq!(sink.valve_state(), Valve::Open);
    sink.deliver_raw(3, Encoding::Raw, four_mb);
    assert_eq!(sink.message_bytes, 12 * (1 << 20));
    assert_eq!(sink.valve_state(), Valve::Closed);
}

#[test]
fn valve_boundary_is_at_or_above() {
    let mut sink = Kafka::init(config_with(4), ScriptedTransport::new(Vec::new())).ok().unwrap();
    sink.deliver_raw(1, Encoding::Raw, b"abc".to_vec());
    assert_eq!(sink.valve_state(), Valve::Open);
    sink.deliver_raw(2, Encoding::Raw, b"d".to_vec());
    assert_eq!(sink.message_bytes, 4);
    assert_eq!(sink.valve_state(), Valve::Closed);
}

#[test]
fn success_counts_once_and_nothing_else() {
    let mut sink = engine(Vec::new());
    sink.deliver_raw(1, Encoding::Raw, b"abc".to_vec());
    sink.apply_outcomes(vec![TransportOutcome::Delivered]);
    assert_eq!(sink.counters.success, 1);
    assert_eq!(sink.counters.retry, 0);
    assert_eq!(sink.counters.failure, 0);
    assert_eq!(sink.counters.retry_lost, 0);
    assert_eq!(sink.in_flight.len(), 0);
    assert_eq!(sink.transport.sent.len(), 1);
}

#[test]
fn transient_outcomes_resubmit_in_order() {
    let mut sink = engine(Vec::new());
    sink.apply_outcomes(vec![
        TransportOutcome::Rejected {
            kind: TransportErrorKind::LeaderNotAvailable,
            payload: Some(payload(b"1", b"first")),
        },
        TransportOutcome::Delivered,
        TransportOutcome::Rejected {
            kind: TransportErrorKind::NotEnoughReplicas,
            payload: Some(payload(b"2", b"second")),
        },
    ]);
    assert_eq!(sink.counters.success, 1);
    assert_eq!(sink.counters.retry, 2);
    assert_eq!(sink.counters.failure, 0);
    assert_eq!(sink.in_flight.len(), 2);
    assert_eq!(sink.in_flight[0].key, b"1".to_vec());
    assert_eq!(sink.in_flight[0].bytes, b"first".to_vec());
    assert_eq!(sink.in_flight[1].key, b"2".to_vec());
    assert_eq!(sink.in_flight[1].bytes, b"second".to_vec());
    assert_eq!(sink.transport.sent.len(), 2);
    assert_eq!(sink.transport.sent[0], ("events".to_string(), b"1".to_vec(), b"first".to_vec()));
    assert_eq!(sink.transport.sent[1], ("events".to_string(), b"2".to_vec(), b"second".to_vec()));
}

#[test]
fn unrecognized_error_with_bytes_is_fatal() {
    let mut sink = engine(vec![vec![TransportOutcome::Rejected {
        kind: TransportErrorKind::Unrecognized,
        payload: Some(payload(b"1", b"abc")),
    }]]);
    sink.deliver_raw(1, Encoding::Raw, b"abc".to_vec());
    assert!(sink.flush_rounds(16));
    assert_eq!(sink.counters.failure, 1);
    assert_eq!(sink.counters.retry, 0);
    assert_eq!(sink.counters.success, 0);
    assert_eq!(sink.counters.retry_lost, 0);
    assert_eq!(sink.transport.sent.len(), 1, "a fatal payload must not be resubmitted");
}

#[test]
fn transient_error_without_bytes_is_a_lost_retry() {
    let mut sink = engine(vec![vec![TransportOutcome::Rejected {
        kind: TransportErrorKind::NetworkException,
        payload: None,
    }]]);
    sink.deliver_raw(1, Encoding::Raw, b"abc".to_vec());
    assert!(sink.flush_rounds(16));
    assert_eq!(sink.counters.retry_lost, 1);
    assert_eq!(sink.counters.success, 0);
    assert_eq!(sink.counters.retry, 0);
    assert_eq!(sink.counters.failure, 0);
    assert_eq!(sink.transport.sent.len(), 1, "a lost payload is never reconstructed");
}

#[test]
fn unknown_failure_shape_is_fatal() {
    let mut sink = engine(Vec::new());
    sink.apply_outcomes(vec![TransportOutcome::Faulted]);
    assert_eq!(sink.counters.failure, 1);
    assert_eq!(sink.in_flight.len(), 0);
}

#[test]
fn retry_then_success_settles_the_flush() {
    let mut sink = engine(vec![
        vec![TransportOutcome::Rejected {
            kind: TransportErrorKind::RequestTimedOut,
            payload: Some(payload(b"7", b"abc")),
        }],
        vec![TransportOutcome::Delivered],
    ]);
    sink.deliver_raw(7, Encoding::Raw, b"abc".to_vec());
    assert!(sink.flush_rounds(16));
    assert_eq!(sink.counters.success, 1);
    assert_eq!(sink.counters.retry, 1);
    assert_eq!(sink.counters.failure, 0);
    assert_eq!(sink.counters.retry_lost, 0);
    assert_eq!(sink.transport.sent.len(), 2);
    assert_eq!(
        sink.transport.sent[1],
        ("events".to_string(), b"7".to_vec(), b"abc".to_vec()),
        "the retried submission must carry identical key and bytes",
    );
}

#[test]
fn flush_leaves_nothing_in_flight() {
    let mut sink = engine(vec![vec![
        TransportOutcome::Delivered,
        TransportOutcome::Delivered,
        TransportOutcome::Delivered,
    ]]);
    sink.deliver_raw(1, Encoding::Raw, b"a".to_vec());
    sink.deliver_raw(2, Encoding::Raw, b"bc".to_vec());
    sink.deliver_raw(3, Encoding::Raw, b"def".to_vec());
    assert_eq!(sink.message_bytes, 6);
    assert!(sink.flush_rounds(16));
    assert_eq!(sink.in_flight.len(), 0);
    assert_eq!(sink.message_bytes, 0);
    assert_eq!(sink.valve_state(), Valve::Open);
    assert_eq!(sink.counters.success, 3);
}

#[test]
fn flush_without_progress_reports_not_done() {
    let mut sink = engine(vec![
        vec![TransportOutcome::Rejected {
            kind: TransportErrorKind::RequestTimedOut,
            payload: Some(payload(b"1", b"abc")),
        }],
        vec![TransportOutcome::Rejected {
            kind: TransportErrorKind::RequestTimedOut,
            payload: Some(payload(b"1", b"abc")),
        }],
    ]);
    sink.deliver_raw(1, Encoding::Raw, b"abc".to_vec());
    assert!(!sink.flush_rounds(2));
    assert_eq!(sink.in_flight.len(), 1);
    assert_eq!(sink.counters.retry, 2);
    assert_eq!(sink.message_bytes, 3, "an unfinished cycle leaves the byte total standing");
    assert!(sink.flush_rounds(16));
    assert_eq!(sink.message_bytes, 0);
}

fn drive_through_contract<S: sink_delivery::sink::Sink>(sink: &mut S) {
    sink.flush();
}

#[test]
fn kafka_honors_the_sink_contract() {
    let mut sink = engine(vec![vec![TransportOutcome::Delivered]]);
    sink.deliver_raw(1, Encoding::Raw, b"abc".to_vec());
    drive_through_contract(&mut sink);
    assert_eq!(sink.counters.success, 1);
    assert_eq!(sink.in_flight.len(), 0);
    assert_eq!(sink.message_bytes, 0);
}

#[test]
fn shutdown_settles_in_flight_deliveries() {
    let mut sink = engine(vec![vec![TransportOutcome::Delivered]]);
    sink.deliver_raw(1, Encoding::Raw, b"abc".to_vec());
    sink.shutdown();
}
