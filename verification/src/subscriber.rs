//! The decisions of a multicast subscriber: how a receive waits, the
//! bookkeeping of what was received, and the course of a batch receive and of
//! a background listener, each driven by the outcomes of the socket and of
//! decoding that the caller reports.
use crate::publisher::max_usize;
use core::time::Duration;
use std::time::Instant;
use vstd::prelude::*;

verus! {

/// The serialization format of received messages.
#[derive(Debug, Clone, Copy, PartialEq, Eq)]
pub enum DeserializeFormat {
    Json,
    Bincode,
}

impl DeserializeFormat {
    /// The format to use when none is given: JSON.
    pub fn resolve(format: Option<DeserializeFormat>) -> (f: DeserializeFormat)
        ensures
            f == (match format {
                Some(g) => g,
                None => DeserializeFormat::Json,
            }),
    {
        match format {
            Some(g) => g,
            None => DeserializeFormat::Json,
        }
    }

    /// How a decoding failure in this format is described, before the
    /// decoder's own message.
    pub fn failure_prefix(&self) -> (s: &'static str)
        ensures
            s@ == (match *self {
                DeserializeFormat::Json => "Failed to deserialize JSON"@,
                DeserializeFormat::Bincode => "Failed to deserialize binary data"@,
            }),
    {
        match self {
            DeserializeFormat::Json => "Failed to deserialize JSON",
            DeserializeFormat::Bincode => "Failed to deserialize binary data",
        }
    }
}

/// The size of a subscriber's receive buffer when none is given.
pub const DEFAULT_BUFFER_SIZE: usize = 1024;

/// The size of a subscriber's receive buffer: the given one, else
/// `DEFAULT_BUFFER_SIZE`.
pub fn resolve_buffer_size(buffer_size: Option<usize>) -> (n: usize)
    ensures
        n == (match buffer_size {
            Some(m) => m,
            None => DEFAULT_BUFFER_SIZE,
        }),
{
    match buffer_size {
        Some(m) => m,
        None => DEFAULT_BUFFER_SIZE,
    }
}

/// How a single receive waits for data.
#[derive(Debug, Clone, Copy, PartialEq, Eq)]
pub enum ReceiveMode {
    /// Block for at most the given time.
    Blocking(Duration),
    /// Return at once when no data is there, then put the socket back into
    /// blocking mode.
    NonBlocking,
}

/// How a receive with the given timeout waits: a timeout means blocking with
/// that timeout, no timeout means not blocking at all.
pub fn receive_mode(timeout: Option<Duration>) -> (m: ReceiveMode)
    ensures
        m == (match timeout {
            Some(d) => ReceiveMode::Blocking(d),
            None => ReceiveMode::NonBlocking,
        }),
{
    match timeout {
        Some(d) => ReceiveMode::Blocking(d),
        None => ReceiveMode::NonBlocking,
    }
}

/// The integer statistics of a subscriber and the sums behind them. The rate
/// of messages per second is a floating-point figure that the caller derives
/// from `rate_message_count`.
#[derive(Debug, Clone, Copy)]
pub struct SubscriberCounters {
    /// Total number of messages received
    pub messages_received: u64,
    /// Total number of bytes received
    pub bytes_received: u64,
    /// Total number of deserialization errors
    pub deserialization_errors: u64,
    /// Total number of socket errors
    pub socket_errors: u64,
    /// Maximum message size received
    pub max_message_size: usize,
    /// Last receive timestamp
    pub last_receive_time: Option<Instant>,
    /// Average processing time in nanoseconds
    pub avg_processing_time_ns: u64,
    /// Messages counted for the rate, since the statistics were started
    pub rate_message_count: u64,
    /// Sum of processing times in nanoseconds
    pub processing_time_sum_ns: u64,
    /// Count of measurements for processing time
    pub processing_time_count: u64,
}

impl SubscriberCounters {
    /// Counters with nothing recorded.
    pub open spec fn spec_fresh() -> SubscriberCounters {
        SubscriberCounters {
            messages_received: 0,
            bytes_received: 0,
            deserialization_errors: 0,
            socket_errors: 0,
            max_message_size: 0,
            last_receive_time: None,
            avg_processing_time_ns: 0,
            rate_message_count: 0,
            processing_time_sum_ns: 0,
            processing_time_count: 0,
        }
    }

    /// Whether a received message of `size` bytes can be counted without a
    /// counter passing `u64::MAX`.
    pub open spec fn can_record_received(self, size: usize) -> bool {
        &&& self.messages_received < u64::MAX
        &&& self.bytes_received + size <= u64::MAX
    }

    /// The counters once a message of `size` bytes arrived at `now`. The rate
    /// count, a wrapping counter, goes up only when the clock has advanced
    /// since the statistics were started.
    pub open spec fn recorded_received(self, size: usize, now: Instant, clock_advanced: bool) -> SubscriberCounters {
        SubscriberCounters {
            messages_received: (self.messages_received + 1) as u64,
            bytes_received: (self.bytes_received + size) as u64,
            max_message_size: max_usize(self.max_message_size, size),
            last_receive_time: Some(now),
            rate_message_count: if clock_advanced {
                (if self.rate_message_count == u64::MAX {
                    0
                } else {
                    self.rate_message_count + 1
                }) as u64
            } else {
                self.rate_message_count
            },
            ..self
        }
    }

    /// Whether a processing time of `ns` nanoseconds can be counted.
    pub open spec fn can_record_processing(self, ns: u64) -> bool {
        &&& self.processing_time_sum_ns + ns <= u64::MAX
        &&& self.processing_time_count < u64::MAX
    }

    /// The counters once a processing time of `ns` nanoseconds was measured:
    /// the average is the sum of the times over their number.
    pub open spec fn recorded_processing(self, ns: u64) -> SubscriberCounters {
        SubscriberCounters {
            processing_time_sum_ns: (self.processing_time_sum_ns + ns) as u64,
            processing_time_count: (self.processing_time_count + 1) as u64,
            avg_processing_time_ns: ((self.processing_time_sum_ns + ns) / (
            self.processing_time_count + 1)) as u64,
            ..self
        }
    }

    /// Counters with nothing recorded.
    pub fn fresh() -> (c: SubscriberCounters)
        ensures
            c == SubscriberCounters::spec_fresh(),
    {
        SubscriberCounters {
            messages_received: 0,
            bytes_received: 0,
            deserialization_errors: 0,
            socket_errors: 0,
            max_message_size: 0,
            last_receive_time: None,
            avg_processing_time_ns: 0,
            rate_message_count: 0,
            processing_time_sum_ns: 0,
            processing_time_count: 0,
        }
    }

    /// Counts a message of `size` bytes that arrived at `now`.
    pub fn record_received(&mut self, size: usize, now: Instant, clock_advanced: bool)
        requires
            old(self).can_record_received(size),
        ensures
            *final(self) == old(self).recorded_received(size, now, clock_advanced),
            final(self).last_receive_time == Some(now),
            final(self).messages_received == old(self).messages_received + 1,
            final(self).bytes_received == old(self).bytes_received + size,
            final(self).max_message_size >= size,
            final(self).max_message_size >= old(self).max_message_size,
    {
        self.messages_received = self.messages_received + 1;
        self.bytes_received = self.bytes_received + size as u64;
        if size > self.max_message_size {
            self.max_message_size = size;
        }
        self.last_receive_time = Some(now);
        if clock_advanced {
            self.rate_message_count = self.rate_message_count.wrapping_add(1);
        }
    }

    /// Counts a processing time of `ns` nanoseconds and updates the average.
    pub fn record_processing(&mut self, ns: u64)
        requires
            old(self).can_record_processing(ns),
        ensures
            *final(self) == old(self).recorded_processing(ns),
            final(self).avg_processing_time_ns * final(self).processing_time_count
                <= final(self).processing_time_sum_ns,
    {
        self.processing_time_sum_ns = self.processing_time_sum_ns + ns;
        self.processing_time_count = self.processing_time_count + 1;
        self.avg_processing_time_ns = self.processing_time_sum_ns / self.processing_time_count;
        proof {
            let s = self.processing_time_sum_ns as int;
            let c = self.processing_time_count as int;
            assert((s / c) * c <= s) by (nonlinear_arith)
                requires
                    c > 0,
                    s >= 0,
            ;
        }
    }

    /// Counts a message that could not be decoded.
    pub fn record_decode_failure(&mut self)
        requires
            old(self).deserialization_errors < u64::MAX,
        ensures
            *final(self) == (SubscriberCounters {
                deserialization_errors: (old(self).deserialization_errors + 1) as u64,
                ..*old(self)
            }),
    {
        self.deserialization_errors = self.deserialization_errors + 1;
    }

    /// Counts a socket error.
    pub fn record_socket_error(&mut self)
        requires
            old(self).socket_errors < u64::MAX,
        ensures
            *final(self) == (SubscriberCounters {
                socket_errors: (old(self).socket_errors + 1) as u64,
                ..*old(self)
            }),
    {
        self.socket_errors = self.socket_errors + 1;
    }

    /// Forgets everything recorded.
    pub fn reset(&mut self)
        ensures
            *final(self) == SubscriberCounters::spec_fresh(),
    {
        *self = SubscriberCounters::fresh();
    }
}

impl Default for SubscriberCounters {
    fn default() -> (c: SubscriberCounters)
        ensures
            c == SubscriberCounters::spec_fresh(),
    {
        SubscriberCounters::fresh()
    }
}

/// A received message, as the caller reports it: its size, when it arrived,
/// whether the clock has advanced since the statistics were started, how long
/// handling it took, and whether handling it (decoding it, or running the
/// listener's handler) succeeded.
#[derive(Debug, Clone, Copy)]
pub struct Arrival {
    pub size: usize,
    pub now: Instant,
    pub clock_advanced: bool,
    pub processing_ns: u64,
    pub handled: bool,
}

impl SubscriberCounters {
    /// Whether an arrival can be counted: the message, its processing time,
    /// and a failure to handle it where it was not handled.
    pub open spec fn can_record_arrival(self, a: Arrival) -> bool {
        &&& self.can_record_received(a.size)
        &&& self.can_record_processing(a.processing_ns)
        &&& !a.handled ==> self.deserialization_errors < u64::MAX
    }

    /// The counters once an arrival was counted.
    pub open spec fn recorded_arrival(self, a: Arrival) -> SubscriberCounters {
        let c = self.recorded_received(a.size, a.now, a.clock_advanced).recorded_processing(
            a.processing_ns,
        );
        if a.handled {
            c
        } else {
            SubscriberCounters { deserialization_errors: (c.deserialization_errors + 1) as u64, ..c }
        }
    }

    /// Whether an arrival can be counted.
    pub fn has_room_for_arrival(&self, a: &Arrival) -> (b: bool)
        ensures
            b == self.can_record_arrival(*a),
    {
        self.messages_received < u64::MAX && a.size as u64 <= u64::MAX - self.bytes_received
            && a.processing_ns <= u64::MAX - self.processing_time_sum_ns
            && self.processing_time_count < u64::MAX && (a.handled || self.deserialization_errors
            < u64::MAX)
    }

    /// Counts an arrival: the message, its processing time, and a decoding
    /// failure where it was not handled.
    pub fn record_arrival(&mut self, a: &Arrival)
        requires
            old(self).can_record_arrival(*a),
        ensures
            *final(self) == old(self).recorded_arrival(*a),
    {
        self.record_received(a.size, a.now, a.clock_advanced);
        self.record_processing(a.processing_ns);
        if !a.handled {
            self.record_decode_failure();
        }
    }
}

/// What the socket gave a batch receive or a background listener.
#[derive(Debug, Clone, Copy)]
pub enum SocketEvent {
    /// A message arrived and was handled, or failed to be.
    Message(Arrival),
    /// No data was there before the wait ran out.
    WouldBlock,
    /// Any other socket error.
    Failed,
}

/// How a batch receive ended.
#[derive(Debug, Clone, Copy, PartialEq, Eq)]
pub enum BatchEnd {
    /// The batch is over with this many messages stored.
    Complete(usize),
    /// A message could not be decoded: the batch fails with invalid data.
    InvalidData,
    /// The socket failed: the batch fails with that error.
    SocketFailure,
}

/// What the caller of a batch receive does next.
#[derive(Debug, Clone, Copy, PartialEq, Eq)]
pub enum BatchAction {
    /// Receive the next message, then report it.
    Receive,
    /// Store the decoded message at this position of the buffer.
    Store(usize),
    /// Sleep for a millisecond, then report the time again.
    Sleep,
    /// Return.
    Finish(BatchEnd),
}

/// An input to a batch receive: the time elapsed since it began (at the
/// start of each round), or what the socket gave.
#[derive(Debug, Clone, Copy)]
pub enum BatchEvent {
    Tick { elapsed_secs: u64, elapsed_subsec_nanos: u32 },
    Socket(SocketEvent),
}

/// A batch receive into a buffer of `capacity` messages, stopping when the
/// buffer is full, when `max_time_ns` has passed, or when no more data is
/// there once at least one message was stored.
#[derive(Debug, Clone, Copy, PartialEq, Eq)]
pub struct BatchReceiver {
    pub capacity: usize,
    pub processed: usize,
    pub max_time_ns: Option<u64>,
    pub end: Option<BatchEnd>,
}

/// Elapsed time in nanoseconds, as the batch receive measures it.
pub open spec fn spec_elapsed_nanos(secs: u64, subsec_nanos: u32) -> int {
    secs * 1_000_000_000 + subsec_nanos
}

/// Elapsed time in nanoseconds from whole seconds and the nanoseconds beyond.
pub fn elapsed_nanos(secs: u64, subsec_nanos: u32) -> (n: u64)
    requires
        spec_elapsed_nanos(secs, subsec_nanos) <= u64::MAX,
    ensures
        n == spec_elapsed_nanos(secs, subsec_nanos),
{
    secs * 1_000_000_000 + subsec_nanos as u64
}

impl BatchReceiver {
    /// A batch receive that has not begun.
    pub open spec fn spec_new(capacity: usize, max_time_ns: Option<u64>) -> BatchReceiver {
        BatchReceiver { capacity, processed: 0, max_time_ns, end: None }
    }

    /// No more messages are stored than the buffer holds, and a completed
    /// batch reports exactly the messages stored.
    pub open spec fn wf(self) -> bool {
        &&& self.processed <= self.capacity
        &&& self.end matches Some(BatchEnd::Complete(n)) ==> n == self.processed
    }

    /// Whether the batch has met its time limit at the given elapsed time.
    pub open spec fn out_of_time(self, elapsed_ns: int) -> bool {
        self.max_time_ns matches Some(m) && elapsed_ns >= m
    }

    /// Whether the time limit is to be checked at the next tick: the batch
    /// is running, has room, and has a limit.
    pub open spec fn checks_time(self) -> bool {
        self.end is None && self.processed < self.capacity && self.max_time_ns is Some
    }

    /// What the batch needs of the counters and of the reported times to
    /// take `e` without a count passing `u64::MAX`.
    pub open spec fn can_take(self, counters: SubscriberCounters, e: BatchEvent) -> bool {
        self.end is None ==> match e {
            BatchEvent::Tick { elapsed_secs, elapsed_subsec_nanos } => self.checks_time()
                ==> spec_elapsed_nanos(elapsed_secs, elapsed_subsec_nanos) <= u64::MAX,
            BatchEvent::Socket(SocketEvent::Message(a)) => counters.can_record_arrival(a),
            BatchEvent::Socket(SocketEvent::WouldBlock) => true,
            BatchEvent::Socket(SocketEvent::Failed) => counters.socket_errors < u64::MAX,
        }
    }

    /// The counters once the batch took `e`.
    pub open spec fn counted(self, counters: SubscriberCounters, e: BatchEvent) -> SubscriberCounters {
        if self.end is Some {
            counters
        } else {
            match e {
                BatchEvent::Socket(SocketEvent::Message(a)) => counters.recorded_arrival(a),
                BatchEvent::Socket(SocketEvent::Failed) => SubscriberCounters {
                    socket_errors: (counters.socket_errors + 1) as u64,
                    ..counters
                },
                _ => counters,
            }
        }
    }

    /// The batch after `e`, and what its caller does next. Once the batch has
    /// ended it stays ended. At each tick it completes when the buffer is full
    /// or the time limit is met, else asks for a message. A decoded message is
    /// stored at the next position; one that cannot be decoded fails the batch
    /// with invalid data; a socket error fails it. When no data is there it
    /// completes if a message was stored, else it sleeps and tries again.
    pub open spec fn spec_step(self, e: BatchEvent) -> (BatchReceiver, BatchAction) {
        match self.end {
            Some(end) => (self, BatchAction::Finish(end)),
            None => match e {
                BatchEvent::Tick { elapsed_secs, elapsed_subsec_nanos } => {
                    if self.processed >= self.capacity || self.out_of_time(
                        spec_elapsed_nanos(elapsed_secs, elapsed_subsec_nanos),
                    ) {
                        let end = BatchEnd::Complete(self.processed);
                        (BatchReceiver { end: Some(end), ..self }, BatchAction::Finish(end))
                    } else {
                        (self, BatchAction::Receive)
                    }
                },
                BatchEvent::Socket(SocketEvent::Message(a)) => {
                    if !a.handled {
                        let end = BatchEnd::InvalidData;
                        (BatchReceiver { end: Some(end), ..self }, BatchAction::Finish(end))
                    } else if self.processed < self.capacity {
                        (
                            BatchReceiver { processed: (self.processed + 1) as usize, ..self },
                            BatchAction::Store(self.processed),
                        )
                    } else {
                        let end = BatchEnd::Complete(self.processed);
                        (BatchReceiver { end: Some(end), ..self }, BatchAction::Finish(end))
                    }
                },
                BatchEvent::Socket(SocketEvent::WouldBlock) => {
                    if self.processed > 0 {
                        let end = BatchEnd::Complete(self.processed);
                        (BatchReceiver { end: Some(end), ..self }, BatchAction::Finish(end))
                    } else {
                        (self, BatchAction::Sleep)
                    }
                },
                BatchEvent::Socket(SocketEvent::Failed) => {
                    let end = BatchEnd::SocketFailure;
                    (BatchReceiver { end: Some(end), ..self }, BatchAction::Finish(end))
                },
            },
        }
    }

    /// A batch receive into a buffer of `capacity` messages, with an optional
    /// time limit in nanoseconds.
    pub fn new(capacity: usize, max_time_ns: Option<u64>) -> (b: BatchReceiver)
        ensures
            b == BatchReceiver::spec_new(capacity, max_time_ns),
            b.wf(),
    {
        BatchReceiver { capacity, processed: 0, max_time_ns, end: None }
    }

    /// Whether the batch can take `e`.
    pub fn can_take_exec(&self, counters: &SubscriberCounters, e: &BatchEvent) -> (b: bool)
        ensures
            b == self.can_take(*counters, *e),
    {
        if self.end.is_some() {
            return true;
        }
        match e {
            BatchEvent::Tick { elapsed_secs, elapsed_subsec_nanos } => {
                if self.processed < self.capacity && self.max_time_ns.is_some() {
                    *elapsed_secs <= (u64::MAX - *elapsed_subsec_nanos as u64) / 1_000_000_000
                } else {
                    true
                }
            },
            BatchEvent::Socket(SocketEvent::Message(a)) => counters.has_room_for_arrival(a),
            BatchEvent::Socket(SocketEvent::WouldBlock) => true,
            BatchEvent::Socket(SocketEvent::Failed) => counters.socket_errors < u64::MAX,
        }
    }

    /// Takes `e`, counts it in `counters`, and says what to do next.
    pub fn step(&mut self, counters: &mut SubscriberCounters, e: BatchEvent) -> (a: BatchAction)
        requires
            old(self).wf(),
            old(self).can_take(*old(counters), e),
        ensures
            final(self).wf(),
            (*final(self), a) == old(self).spec_step(e),
            *final(counters) == old(self).counted(*old(counters), e),
    {
        if let Some(end) = self.end {
            return BatchAction::Finish(end);
        }
        match e {
            BatchEvent::Tick { elapsed_secs, elapsed_subsec_nanos } => {
                let full = self.processed >= self.capacity;
                let late = if full {
                    false
                } else {
                    match self.max_time_ns {
                        Some(m) => elapsed_nanos(elapsed_secs, elapsed_subsec_nanos) >= m,
                        None => false,
                    }
                };
                if full || late {
                    let end = BatchEnd::Complete(self.processed);
                    self.end = Some(end);
                    BatchAction::Finish(end)
                } else {
                    BatchAction::Receive
                }
            },
            BatchEvent::Socket(SocketEvent::Message(a)) => {
                counters.record_arrival(&a);
                if !a.handled {
                    self.end = Some(BatchEnd::InvalidData);
                    BatchAction::Finish(BatchEnd::InvalidData)
                } else if self.processed < self.capacity {
                    let at = self.processed;
                    self.processed = self.processed + 1;
                    BatchAction::Store(at)
                } else {
                    let end = BatchEnd::Complete(self.processed);
                    self.end = Some(end);
                    BatchAction::Finish(end)
                }
            },
            BatchEvent::Socket(SocketEvent::WouldBlock) => {
                if self.processed > 0 {
                    let end = BatchEnd::Complete(self.processed);
                    self.end = Some(end);
                    BatchAction::Finish(end)
                } else {
                    BatchAction::Sleep
                }
            },
            BatchEvent::Socket(SocketEvent::Failed) => {
                counters.record_socket_error();
                self.end = Some(BatchEnd::SocketFailure);
                BatchAction::Finish(BatchEnd::SocketFailure)
            },
        }
    }
}

/// What a background listener does after a socket event.
#[derive(Debug, Clone, Copy, PartialEq, Eq)]
pub enum ListenerAction {
    /// Go on listening.
    Continue,
    /// Report that the handler failed, then go on listening.
    ReportHandlerError,
    /// Sleep for ten milliseconds, then go on listening.
    Sleep,
    /// Report the socket error, then go on listening.
    ReportSocketError,
}

/// The counters once a background listener took `e`. A message the handler
/// failed on is counted as received but not as a decoding error.
pub open spec fn listener_counted(counters: SubscriberCounters, e: SocketEvent) -> SubscriberCounters {
    match e {
        SocketEvent::Message(a) => counters.recorded_received(a.size, a.now, a.clock_advanced).recorded_processing(a.processing_ns),
        SocketEvent::WouldBlock => counters,
        SocketEvent::Failed => SubscriberCounters { socket_errors: (counters.socket_errors + 1) as u64, ..counters },
    }
}

/// What a background listener does after `e`.
pub open spec fn spec_listener_action(e: SocketEvent) -> ListenerAction {
    match e {
        SocketEvent::Message(a) => if a.handled {
            ListenerAction::Continue
        } else {
            ListenerAction::ReportHandlerError
        },
        SocketEvent::WouldBlock => ListenerAction::Sleep,
        SocketEvent::Failed => ListenerAction::ReportSocketError,
    }
}

/// What a background listener needs of the counters to take `e`.
pub open spec fn listener_can_take(counters: SubscriberCounters, e: SocketEvent) -> bool {
    match e {
        SocketEvent::Message(a) => counters.can_record_received(a.size) && counters.can_record_processing(a.processing_ns),
        SocketEvent::WouldBlock => true,
        SocketEvent::Failed => counters.socket_errors < u64::MAX,
    }
}

/// Whether a background listener can take `e`.
pub fn listener_can_take_exec(counters: &SubscriberCounters, e: &SocketEvent) -> (b: bool)
    ensures
        b == listener_can_take(*counters, *e),
{
    match e {
        SocketEvent::Message(a) => counters.messages_received < u64::MAX && a.size as u64
            <= u64::MAX - counters.bytes_received && a.processing_ns <= u64::MAX
            - counters.processing_time_sum_ns && counters.processing_time_count < u64::MAX,
        SocketEvent::WouldBlock => true,
        SocketEvent::Failed => counters.socket_errors < u64::MAX,
    }
}

/// One round of a background listener: counts `e` and says what to do.
pub fn listener_step(counters: &mut SubscriberCounters, e: SocketEvent) -> (a: ListenerAction)
    requires
        listener_can_take(*old(counters), e),
    ensures
        *final(counters) == listener_counted(*old(counters), e),
        a == spec_listener_action(e),
{
    match e {
        SocketEvent::Message(m) => {
            counters.record_received(m.size, m.now, m.clock_advanced);
            counters.record_processing(m.processing_ns);
            if m.handled {
                ListenerAction::Continue
            } else {
                ListenerAction::ReportHandlerError
            }
        },
        SocketEvent::WouldBlock => ListenerAction::Sleep,
        SocketEvent::Failed => {
            counters.record_socket_error();
            ListenerAction::ReportSocketError
        },
    }
}


/// The batch and the actions after the events `events`, in order.
pub open spec fn batch_run(b: BatchReceiver, events: Seq<BatchEvent>) -> (BatchReceiver, Seq<BatchAction>)
    decreases events.len(),
{
    if events.len() == 0 {
        (b, Seq::empty())
    } else {
        let (b1, acts) = batch_run(b, events.drop_last());
        let (b2, a) = b1.spec_step(events.last());
        (b2, acts.push(a))
    }
}

/// The buffer positions that `acts` store to, in order.
pub open spec fn stored_positions(acts: Seq<BatchAction>) -> Seq<usize>
    decreases acts.len(),
{
    if acts.len() == 0 {
        Seq::empty()
    } else {
        let rest = stored_positions(acts.drop_last());
        match acts.last() {
            BatchAction::Store(i) => rest.push(i),
            _ => rest,
        }
    }
}

/// A step keeps a batch well formed.
pub proof fn lemma_step_wf(b: BatchReceiver, e: BatchEvent)
    requires
        b.wf(),
    ensures
        b.spec_step(e).0.wf(),
        b.spec_step(e).0.capacity == b.capacity,
        b.spec_step(e).0.processed >= b.processed,
{
}

/// Filling a batch: whatever the socket and the decoder report, a batch
/// receive stores its messages at positions 0, 1, 2, ... of the buffer, in
/// that order and each once, never more than the buffer holds; and when it
/// completes, the count it returns is the number of messages stored.
pub proof fn lemma_batch_fills_in_order(capacity: usize, max_time_ns: Option<u64>, events: Seq<BatchEvent>)
    ensures
        ({
            let (b, acts) = batch_run(BatchReceiver::spec_new(capacity, max_time_ns), events);
            &&& b.wf()
            &&& b.capacity == capacity
            &&& b.processed <= capacity
            &&& stored_positions(acts) == Seq::new(b.processed as nat, |i: int| i as usize)
            &&& forall|k: int| 0 <= k < acts.len() ==> (#[trigger] acts[k] matches BatchAction::Finish(BatchEnd::Complete(n)) ==> n == b.processed)
            &&& forall|k: int| 0 <= k < acts.len() ==> (#[trigger] acts[k] is Finish ==> b.end is Some)
        }),
    decreases events.len(),
{
    let b0 = BatchReceiver::spec_new(capacity, max_time_ns);
    if events.len() > 0 {
        lemma_batch_fills_in_order(capacity, max_time_ns, events.drop_last());
        let (b1, acts) = batch_run(b0, events.drop_last());
        lemma_step_wf(b1, events.last());
        let (b2, a) = b1.spec_step(events.last());
        assert(acts.push(a).drop_last() =~= acts);
        let p1 = stored_positions(acts);
        match a {
            BatchAction::Store(i) => {
                assert(stored_positions(acts.push(a)) =~= Seq::new(b2.processed as nat, |j: int| j as usize));
            },
            _ => {
                assert(b2.processed == b1.processed);
                assert(stored_positions(acts.push(a)) =~= Seq::new(b2.processed as nat, |j: int| j as usize));
            },
        }
        assert forall|k: int| 0 <= k < acts.push(a).len() implies (#[trigger] acts.push(a)[k] matches BatchAction::Finish(BatchEnd::Complete(n)) ==> n == b2.processed) by {
            if k < acts.len() {
                assert(acts.push(a)[k] == acts[k]);
                if acts[k] is Finish {
                    assert(b1.end is Some);
                }
            }
        }
        assert forall|k: int| 0 <= k < acts.push(a).len() implies (#[trigger] acts.push(a)[k] is Finish ==> b2.end is Some) by {
            if k < acts.len() {
                assert(acts.push(a)[k] == acts[k]);
            }
        }
    }
}

/// An ended batch stays ended: every later event is answered with the same
/// end, and nothing more is stored.
pub proof fn lemma_ended_batch_stays(b: BatchReceiver, events: Seq<BatchEvent>)
    requires
        b.end is Some,
    ensures
        batch_run(b, events).0 == b,
        forall|k: int| 0 <= k < events.len() ==> #[trigger] batch_run(b, events).1[k] == BatchAction::Finish(b.end.unwrap()),
        batch_run(b, events).1.len() == events.len(),
    decreases events.len(),
{
    if events.len() > 0 {
        lemma_ended_batch_stays(b, events.drop_last());
        let acts = batch_run(b, events.drop_last()).1;
        assert forall|k: int| 0 <= k < events.len() implies #[trigger] batch_run(b, events).1[k] == BatchAction::Finish(b.end.unwrap()) by {
            if k < events.len() - 1 {
                assert(batch_run(b, events).1[k] == acts[k]);
            }
        }
    }
}


/// Receiving a message: the counters count one more message and its bytes,
/// the largest size is at least this message's and never shrinks, and the
/// last receive time is the time of this message, whatever it was before.
pub proof fn lemma_received_message_counted(c: SubscriberCounters, size: usize, now: Instant, clock_advanced: bool)
    requires
        c.can_record_received(size),
    ensures
        c.recorded_received(size, now, clock_advanced).last_receive_time == Some(now),
        c.recorded_received(size, now, clock_advanced).messages_received == c.messages_received + 1,
        c.recorded_received(size, now, clock_advanced).bytes_received == c.bytes_received + size,
        c.recorded_received(size, now, clock_advanced).max_message_size >= size,
        c.recorded_received(size, now, clock_advanced).max_message_size >= c.max_message_size,
        c.recorded_received(size, now, clock_advanced).max_message_size == size
            || c.recorded_received(size, now, clock_advanced).max_message_size == c.max_message_size,
{
}

/// A message that could not be decoded fails a running batch with invalid
/// data, however many messages were stored before it; the batch then stays
/// ended with that outcome.
pub proof fn lemma_undecodable_message_fails_batch(b: BatchReceiver, a: Arrival)
    requires
        !a.handled,
        b.end is None,
    ensures
        b.spec_step(BatchEvent::Socket(SocketEvent::Message(a))).1 == BatchAction::Finish(BatchEnd::InvalidData),
        b.spec_step(BatchEvent::Socket(SocketEvent::Message(a))).0.end == Some(BatchEnd::InvalidData),
        b.spec_step(BatchEvent::Socket(SocketEvent::Message(a))).0.processed == b.processed,
{
}

} // verus!
