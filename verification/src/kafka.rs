//! Records for the message broker, and the accounting of their delivery.
//!
//! The broker client reports every record that it accepted exactly once, as
//! delivered or as failed. [`Metrics`] counts those reports. The counters wrap
//! around at `u64::MAX`, as an atomic addition does.

use std::collections::HashMap;
use vstd::prelude::*;
use vstd::string::StringExecFns;

verus! {

/// A record to be sent to the broker.
pub struct ProducerRecord {
    pub key: Vec<u8>,
    pub topic: String,
    pub headers: HashMap<String, Vec<u8>>,
    pub payload: Vec<u8>,
}

/// What a [`ProducerRecord`] holds.
pub struct ProducerRecordView {
    pub key: Seq<u8>,
    pub topic: Seq<char>,
    pub headers: Map<String, Vec<u8>>,
    pub payload: Seq<u8>,
}

impl View for ProducerRecord {
    type V = ProducerRecordView;

    open spec fn view(&self) -> ProducerRecordView {
        ProducerRecordView {
            key: self.key@,
            topic: self.topic@,
            headers: self.headers@,
            payload: self.payload@,
        }
    }
}

/// The key of every record that carries an event: the text `test`.
pub open spec fn event_key() -> Seq<u8> {
    seq![116u8, 101u8, 115u8, 116u8]
}

/// The record that carries the event `payload` to the topic `topic`.
pub open spec fn event_record_view(topic: Seq<char>, payload: Seq<u8>) -> ProducerRecordView {
    ProducerRecordView { key: event_key(), topic, headers: Map::empty(), payload }
}

impl ProducerRecord {
    /// The record that carries the event `payload` to the topic `topic`: with
    /// the key `test` and without headers.
    pub fn for_event(topic: &str, payload: Vec<u8>) -> (record: ProducerRecord)
        ensures
            record@ == event_record_view(topic@, payload@),
    {
        let mut key: Vec<u8> = Vec::new();
        key.push(116);
        key.push(101);
        key.push(115);
        key.push(116);
        assert(key@ =~= event_key());
        ProducerRecord { key, topic: String::from_str(topic), headers: HashMap::new(), payload }
    }
}

/// Counters of the records that the broker has reported.
#[derive(Debug, Clone, Copy, PartialEq, Eq, Structural)]
pub struct Metrics {
    /// The number of records that were delivered.
    pub sent_messages: u64,
    /// The number of payload bytes that were delivered.
    pub sent_bytes: u64,
    /// The number of records that could not be delivered.
    pub dropped_messages: u64,
    /// The number of payload bytes that could not be delivered.
    pub dropped_bytes: u64,
}

/// What the broker reports of one record that it had accepted.
#[derive(Debug, Clone, Copy, PartialEq, Eq, Structural)]
pub enum Delivery {
    /// The record was delivered; its payload had `payload_len` bytes.
    Delivered { payload_len: usize },
    /// The record could not be delivered; its payload had `payload_len` bytes.
    Failed { payload_len: usize },
}

impl Delivery {
    /// The counts of this one report: one message and its bytes, as sent or
    /// as dropped.
    pub open spec fn counts(self) -> Metrics {
        match self {
            Delivery::Delivered { payload_len } => Metrics {
                sent_messages: 1,
                sent_bytes: payload_len as u64,
                dropped_messages: 0,
                dropped_bytes: 0,
            },
            Delivery::Failed { payload_len } => Metrics {
                sent_messages: 0,
                sent_bytes: 0,
                dropped_messages: 1,
                dropped_bytes: payload_len as u64,
            },
        }
    }
}

impl Metrics {
    /// The counters with `other` added to them, each wrapping around.
    pub open spec fn plus(self, other: Metrics) -> Metrics {
        Metrics {
            sent_messages: self.sent_messages.wrapping_add(other.sent_messages),
            sent_bytes: self.sent_bytes.wrapping_add(other.sent_bytes),
            dropped_messages: self.dropped_messages.wrapping_add(other.dropped_messages),
            dropped_bytes: self.dropped_bytes.wrapping_add(other.dropped_bytes),
        }
    }

    /// The counters after the report `delivery`.
    pub open spec fn recorded(self, delivery: Delivery) -> Metrics {
        self.plus(delivery.counts())
    }

    /// The counters after the reports `deliveries`, in their order.
    pub open spec fn replayed(self, deliveries: Seq<Delivery>) -> Metrics
        decreases deliveries.len(),
    {
        if deliveries.len() == 0 {
            self
        } else {
            self.replayed(deliveries.drop_last()).recorded(deliveries.last())
        }
    }

    /// The number of reports that the counters hold.
    pub open spec fn reported(self) -> int {
        self.sent_messages + self.dropped_messages
    }

    /// Whether `n` more reports, of `bytes` payload bytes in all, fit into the
    /// counters without wrapping.
    pub open spec fn has_room(self, n: int, bytes: int) -> bool {
        &&& self.sent_messages + n <= u64::MAX
        &&& self.dropped_messages + n <= u64::MAX
        &&& self.sent_bytes + bytes <= u64::MAX
        &&& self.dropped_bytes + bytes <= u64::MAX
    }

    /// Counters that are all zero.
    pub fn new() -> (m: Metrics)
        ensures
            m == (Metrics { sent_messages: 0, sent_bytes: 0, dropped_messages: 0, dropped_bytes: 0 }),
    {
        Metrics { sent_messages: 0, sent_bytes: 0, dropped_messages: 0, dropped_bytes: 0 }
    }

    /// The counts of the one report `delivery`.
    pub fn of(delivery: Delivery) -> (m: Metrics)
        ensures
            m == delivery.counts(),
    {
        match delivery {
            Delivery::Delivered { payload_len } => Metrics {
                sent_messages: 1,
                sent_bytes: payload_len as u64,
                dropped_messages: 0,
                dropped_bytes: 0,
            },
            Delivery::Failed { payload_len } => Metrics {
                sent_messages: 0,
                sent_bytes: 0,
                dropped_messages: 1,
                dropped_bytes: payload_len as u64,
            },
        }
    }

    /// Adds `other` to the counters, each wrapping around.
    pub fn accumulate(&mut self, other: Metrics)
        ensures
            *final(self) == old(self).plus(other),
    {
        self.sent_messages = self.sent_messages.wrapping_add(other.sent_messages);
        self.sent_bytes = self.sent_bytes.wrapping_add(other.sent_bytes);
        self.dropped_messages = self.dropped_messages.wrapping_add(other.dropped_messages);
        self.dropped_bytes = self.dropped_bytes.wrapping_add(other.dropped_bytes);
    }

    /// Counts the report `delivery`: a delivered record adds one to the sent
    /// messages and its payload length to the sent bytes; a failed record
    /// adds them to the dropped messages and bytes.
    pub fn record(&mut self, delivery: Delivery)
        ensures
            *final(self) == old(self).recorded(delivery),
    {
        self.accumulate(Metrics::of(delivery));
    }

    /// One report moves exactly one of the two message counters, by one, and
    /// leaves the counters of the other outcome as they were.
    pub proof fn lemma_one_outcome_per_report(self, delivery: Delivery)
        ensures
            (self.recorded(delivery).sent_messages != self.sent_messages) != (self.recorded(
                delivery,
            ).dropped_messages != self.dropped_messages),
            delivery is Delivered ==> {
                &&& self.recorded(delivery).sent_messages == self.sent_messages.wrapping_add(1)
                &&& self.recorded(delivery).dropped_messages == self.dropped_messages
                &&& self.recorded(delivery).dropped_bytes == self.dropped_bytes
            },
            delivery is Failed ==> {
                &&& self.recorded(delivery).dropped_messages == self.dropped_messages.wrapping_add(
                    1,
                )
                &&& self.recorded(delivery).sent_messages == self.sent_messages
                &&& self.recorded(delivery).sent_bytes == self.sent_bytes
            },
    {
    }

    /// The total of the payload lengths of the reports `deliveries`.
    pub open spec fn payload_bytes(deliveries: Seq<Delivery>) -> int
        decreases deliveries.len(),
    {
        if deliveries.len() == 0 {
            0
        } else {
            Metrics::payload_bytes(deliveries.drop_last()) + match deliveries.last() {
                Delivery::Delivered { payload_len } => payload_len as int,
                Delivery::Failed { payload_len } => payload_len as int,
            }
        }
    }

    /// As long as the counters do not wrap, every report is counted once: after
    /// any sequence of reports the two message counters together have grown by
    /// the number of reports, the two byte counters together by the bytes of
    /// their payloads, and no counter has shrunk.
    pub proof fn lemma_every_report_counts_once(self, deliveries: Seq<Delivery>)
        requires
            self.has_room(deliveries.len() as int, Metrics::payload_bytes(deliveries)),
        ensures
            self.replayed(deliveries).reported() == self.reported() + deliveries.len(),
            self.replayed(deliveries).sent_bytes + self.replayed(deliveries).dropped_bytes
                == self.sent_bytes + self.dropped_bytes + Metrics::payload_bytes(deliveries),
            self.sent_messages <= self.replayed(deliveries).sent_messages,
            self.sent_bytes <= self.replayed(deliveries).sent_bytes,
            self.dropped_messages <= self.replayed(deliveries).dropped_messages,
            self.dropped_bytes <= self.replayed(deliveries).dropped_bytes,
            self.replayed(deliveries).sent_messages <= self.sent_messages + deliveries.len(),
            self.replayed(deliveries).dropped_messages <= self.dropped_messages + deliveries.len(),
            self.replayed(deliveries).sent_bytes <= self.sent_bytes + Metrics::payload_bytes(
                deliveries,
            ),
            self.replayed(deliveries).dropped_bytes <= self.dropped_bytes + Metrics::payload_bytes(
                deliveries,
            ),
        decreases deliveries.len(),
    {
        if deliveries.len() > 0 {
            Metrics::lemma_payload_bytes_nonnegative(deliveries.drop_last());
            self.lemma_every_report_counts_once(deliveries.drop_last());
        }
    }

    /// A total of payload lengths is not negative.
    pub proof fn lemma_payload_bytes_nonnegative(deliveries: Seq<Delivery>)
        ensures
            Metrics::payload_bytes(deliveries) >= 0,
        decreases deliveries.len(),
    {
        if deliveries.len() > 0 {
            Metrics::lemma_payload_bytes_nonnegative(deliveries.drop_last());
        }
    }
}

impl Default for Metrics {
    fn default() -> (m: Metrics)
        ensures
            m == (Metrics { sent_messages: 0, sent_bytes: 0, dropped_messages: 0, dropped_bytes: 0 }),
    {
        Metrics::new()
    }
}

/// What the publisher does next: submit a record to the broker, or stop.
pub enum PublisherAction {
    /// Submit the record to the broker client.
    Submit(ProducerRecord),
    /// The queue is closed for good: leave the loop.
    Stop,
}

/// Decides what the publisher does with what it took from the queue: a record
/// is submitted, and the end of the queue ends the loop.
pub fn after_dequeue(received: Option<ProducerRecord>) -> (action: PublisherAction)
    ensures
        action == (match received {
            Some(record) => PublisherAction::Submit(record),
            None => PublisherAction::Stop,
        }),
{
    match received {
        Some(record) => PublisherAction::Submit(record),
        None => PublisherAction::Stop,
    }
}

} // verus!
