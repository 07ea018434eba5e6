use multicast_rs::subscriber::{
    elapsed_nanos, listener_step, receive_mode, resolve_buffer_size, Arrival, BatchAction, BatchEnd, BatchEvent,
    BatchReceiver, DeserializeFormat, ListenerAction, ReceiveMode, SocketEvent,
    SubscriberCounters,
};
use std::time::{Duration, Instant};

fn tick(ns: u32) -> BatchEvent {
    BatchEvent::Tick { elapsed_secs: 0, elapsed_subsec_nanos: ns }
}

fn message(size: usize, handled: bool) -> BatchEvent {
    BatchEvent::Socket(SocketEvent::Message(Arrival {
        size,
        now: Instant::now(),
        clock_advanced: true,
        processing_ns: 10,
        handled,
    }))
}

#[test]
fn batch_fills_the_buffer_in_order() {
    let mut counters = SubscriberCounters::fresh();
    let mut b = BatchReceiver::new(3, Some(5_000_000_000));
    let mut stored = Vec::new();
    for _ in 0..3 {
        assert_eq!(b.step(&mut counters, tick(1)), BatchAction::Receive);
        match b.step(&mut counters, message(20, true)) {
            BatchAction::Store(i) => stored.push(i),
            other => panic!("unexpected {:?}", other),
        }
    }
    assert_eq!(stored, vec![0, 1, 2]);
    assert_eq!(b.step(&mut counters, tick(1)), BatchAction::Finish(BatchEnd::Complete(3)));
    // An ended batch stays ended.
    assert_eq!(b.step(&mut counters, message(1, true)), BatchAction::Finish(BatchEnd::Complete(3)));
    assert_eq!(counters.messages_received, 3);
    assert_eq!(counters.bytes_received, 60);
    assert_eq!(counters.processing_time_count, 3);
    assert_eq!(counters.avg_processing_time_ns, 10);
}

#[test]
fn empty_buffer_completes_at_once() {
    let mut counters = SubscriberCounters::fresh();
    let mut b = BatchReceiver::new(0, None);
    assert_eq!(b.step(&mut counters, tick(0)), BatchAction::Finish(BatchEnd::Complete(0)));
}

#[test]
fn no_data_waits_until_something_was_stored() {
    let mut counters = SubscriberCounters::fresh();
    let mut b = BatchReceiver::new(5, None);
    assert_eq!(b.step(&mut counters, tick(0)), BatchAction::Receive);
    assert_eq!(b.step(&mut counters, BatchEvent::Socket(SocketEvent::WouldBlock)), BatchAction::Sleep);
    assert_eq!(b.step(&mut counters, tick(0)), BatchAction::Receive);
    assert_eq!(b.step(&mut counters, message(4, true)), BatchAction::Store(0));
    assert_eq!(b.step(&mut counters, tick(0)), BatchAction::Receive);
    assert_eq!(
        b.step(&mut counters, BatchEvent::Socket(SocketEvent::WouldBlock)),
        BatchAction::Finish(BatchEnd::Complete(1))
    );
}

#[test]
fn time_limit_ends_the_batch() {
    let mut counters = SubscriberCounters::fresh();
    let mut b = BatchReceiver::new(5, Some(1_500_000_000));
    assert_eq!(
        b.step(&mut counters, BatchEvent::Tick { elapsed_secs: 1, elapsed_subsec_nanos: 499_999_999 }),
        BatchAction::Receive
    );
    assert_eq!(
        b.step(&mut counters, BatchEvent::Tick { elapsed_secs: 1, elapsed_subsec_nanos: 500_000_000 }),
        BatchAction::Finish(BatchEnd::Complete(0))
    );
}

#[test]
fn undecodable_message_fails_the_batch() {
    let mut counters = SubscriberCounters::fresh();
    let mut b = BatchReceiver::new(5, None);
    assert_eq!(b.step(&mut counters, tick(0)), BatchAction::Receive);
    assert_eq!(b.step(&mut counters, message(9, false)), BatchAction::Finish(BatchEnd::InvalidData));
    assert_eq!(counters.deserialization_errors, 1);
    assert_eq!(counters.messages_received, 1);
    assert_eq!(b.step(&mut counters, tick(0)), BatchAction::Finish(BatchEnd::InvalidData));
}

#[test]
fn socket_error_fails_the_batch() {
    let mut counters = SubscriberCounters::fresh();
    let mut b = BatchReceiver::new(5, None);
    let e = BatchEvent::Socket(SocketEvent::Failed);
    assert!(b.can_take_exec(&counters, &e));
    assert_eq!(b.step(&mut counters, e), BatchAction::Finish(BatchEnd::SocketFailure));
    assert_eq!(counters.socket_errors, 1);
}

#[test]
fn batch_refuses_overflowing_time() {
    let counters = SubscriberCounters::fresh();
    let b = BatchReceiver::new(5, Some(1));
    let e = BatchEvent::Tick { elapsed_secs: u64::MAX, elapsed_subsec_nanos: 0 };
    assert!(!b.can_take_exec(&counters, &e));
    let unlimited = BatchReceiver::new(5, None);
    assert!(unlimited.can_take_exec(&counters, &e));
}

#[test]
fn elapsed_time_in_nanoseconds() {
    assert_eq!(elapsed_nanos(2, 5), 2_000_000_005);
}

#[test]
fn listener_rounds() {
    let mut c = SubscriberCounters::fresh();
    let ok = SocketEvent::Message(Arrival {
        size: 9,
        now: Instant::now(),
        clock_advanced: false,
        processing_ns: 4,
        handled: true,
    });
    assert_eq!(listener_step(&mut c, ok), ListenerAction::Continue);
    let bad = SocketEvent::Message(Arrival {
        size: 3,
        now: Instant::now(),
        clock_advanced: true,
        processing_ns: 8,
        handled: false,
    });
    assert_eq!(listener_step(&mut c, bad), ListenerAction::ReportHandlerError);
    assert_eq!(listener_step(&mut c, SocketEvent::WouldBlock), ListenerAction::Sleep);
    assert_eq!(listener_step(&mut c, SocketEvent::Failed), ListenerAction::ReportSocketError);
    assert_eq!(c.messages_received, 2);
    assert_eq!(c.bytes_received, 12);
    assert_eq!(c.deserialization_errors, 0);
    assert_eq!(c.socket_errors, 1);
    assert_eq!(c.avg_processing_time_ns, 6);
    assert_eq!(c.rate_message_count, 1);
}

#[test]
fn formats_and_modes() {
    assert_eq!(DeserializeFormat::resolve(None), DeserializeFormat::Json);
    assert_eq!(DeserializeFormat::resolve(Some(DeserializeFormat::Bincode)), DeserializeFormat::Bincode);
    assert_eq!(DeserializeFormat::Json.failure_prefix(), "Failed to deserialize JSON");
    assert_eq!(DeserializeFormat::Bincode.failure_prefix(), "Failed to deserialize binary data");
    assert_eq!(receive_mode(None), ReceiveMode::NonBlocking);
    assert_eq!(
        receive_mode(Some(Duration::from_secs(2))),
        ReceiveMode::Blocking(Duration::from_secs(2))
    );
}

#[test]
fn buffer_size_defaults_to_1024() {
    assert_eq!(resolve_buffer_size(None), 1024);
    assert_eq!(resolve_buffer_size(Some(2048)), 2048);
}
