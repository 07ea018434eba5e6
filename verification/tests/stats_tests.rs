use multicast_rs::publisher::PublisherStatistics;
use multicast_rs::subscriber::SubscriberCounters;
use std::time::Instant;

#[test]
fn test_publisher_stats() {
    let mut stats = PublisherStatistics::default();

    // Check initial stats
    assert_eq!(stats.messages_published, 0);
    assert_eq!(stats.bytes_published, 0);
    assert_eq!(stats.publish_errors, 0);
    assert_eq!(stats.max_message_size, 0);
    assert!(stats.last_publish_time.is_none());

    // Publish a message
    let message = "Test message for stats";
    let bytes_sent = message.len();
    stats.record_sent(message.len(), bytes_sent, Instant::now());

    assert_eq!(stats.messages_published, 1);
    assert_eq!(stats.bytes_published, bytes_sent as u64);
    assert_eq!(stats.max_message_size, message.len());
    assert!(stats.last_publish_time.is_some());

    // Publish a larger message
    let large_message = vec![b'A'; 1000];
    let large_bytes_sent = large_message.len();
    stats.record_sent(large_message.len(), large_bytes_sent, Instant::now());

    assert_eq!(stats.messages_published, 2);
    assert_eq!(stats.bytes_published, (bytes_sent + large_bytes_sent) as u64);
    assert_eq!(stats.max_message_size, large_message.len());

    // Reset stats
    stats.reset();
    assert_eq!(stats.messages_published, 0);
    assert_eq!(stats.bytes_published, 0);
    assert_eq!(stats.publish_errors, 0);
    assert_eq!(stats.max_message_size, 0);
    assert!(stats.last_publish_time.is_none());

    // Error counting
    stats.record_error();
    assert_eq!(stats.publish_errors, 1);
}

#[test]
fn test_publisher_batch_stats() {
    let mut stats = PublisherStatistics::default();
    stats.reset();

    let messages = vec![
        "Message 1".to_string(),
        "Message 2 with more content".to_string(),
        "Message 3 with even more content to increase size".to_string(),
    ];

    let expected_total_bytes = messages.iter().map(|m| m.len()).sum::<usize>();
    let expected_max_size = messages.iter().map(|m| m.len()).max().unwrap_or(0);

    for m in &messages {
        stats.record_sent(m.len(), m.len(), Instant::now());
    }

    assert_eq!(stats.messages_published, messages.len() as u64);
    assert_eq!(stats.bytes_published, expected_total_bytes as u64);
    assert_eq!(stats.max_message_size, expected_max_size);
    assert!(stats.last_publish_time.is_some());
}

#[test]
fn publisher_max_keeps_larger_earlier_message() {
    let mut stats = PublisherStatistics::fresh();
    stats.record_sent(500, 500, Instant::now());
    stats.record_sent(20, 20, Instant::now());
    assert_eq!(stats.max_message_size, 500);
    assert_eq!(stats.bytes_published, 520);
    assert_eq!(stats.publish_errors, 0);
}

#[test]
fn publisher_error_leaves_other_counters() {
    let mut stats = PublisherStatistics::fresh();
    stats.record_sent(7, 7, Instant::now());
    stats.record_error();
    stats.record_error();
    assert_eq!(stats.publish_errors, 2);
    assert_eq!(stats.messages_published, 1);
    assert_eq!(stats.bytes_published, 7);
    assert!(stats.has_room_for_sent(10));
    stats.messages_published = u64::MAX;
    assert!(!stats.has_room_for_sent(10));
}

#[test]
fn test_subscriber_stats() {
    let mut stats = SubscriberCounters::default();

    assert_eq!(stats.messages_received, 0);
    assert_eq!(stats.bytes_received, 0);
    assert_eq!(stats.socket_errors, 0);
    assert_eq!(stats.deserialization_errors, 0);
    assert_eq!(stats.max_message_size, 0);
    assert!(stats.last_receive_time.is_none());

    stats.messages_received = 2;
    stats.bytes_received = 1024;
    stats.max_message_size = 512;
    stats.last_receive_time = Some(Instant::now());
    stats.deserialization_errors = 1;

    assert_eq!(stats.messages_received, 2);
    assert_eq!(stats.bytes_received, 1024);
    assert_eq!(stats.max_message_size, 512);
    assert!(stats.last_receive_time.is_some());
    assert_eq!(stats.deserialization_errors, 1);

    stats.reset();

    assert_eq!(stats.messages_received, 0);
    assert_eq!(stats.bytes_received, 0);
    assert_eq!(stats.deserialization_errors, 0);
    assert_eq!(stats.socket_errors, 0);
    assert_eq!(stats.max_message_size, 0);
    assert!(stats.last_receive_time.is_none());
}

#[test]
fn subscriber_counts_received_messages() {
    let mut c = SubscriberCounters::fresh();
    c.record_received(100, Instant::now(), true);
    c.record_received(40, Instant::now(), false);
    assert_eq!(c.messages_received, 2);
    assert_eq!(c.bytes_received, 140);
    assert_eq!(c.max_message_size, 100);
    assert_eq!(c.rate_message_count, 1);
    assert!(c.last_receive_time.is_some());
}

#[test]
fn subscriber_rate_count_wraps() {
    let mut c = SubscriberCounters::fresh();
    c.rate_message_count = u64::MAX;
    c.record_received(1, Instant::now(), true);
    assert_eq!(c.rate_message_count, 0);
}

#[test]
fn subscriber_average_processing_time() {
    let mut c = SubscriberCounters::fresh();
    c.record_processing(100);
    assert_eq!(c.avg_processing_time_ns, 100);
    c.record_processing(201);
    assert_eq!(c.processing_time_sum_ns, 301);
    assert_eq!(c.processing_time_count, 2);
    assert_eq!(c.avg_processing_time_ns, 150);
}

#[test]
fn subscriber_error_counters() {
    let mut c = SubscriberCounters::fresh();
    c.record_decode_failure();
    c.record_socket_error();
    c.record_socket_error();
    assert_eq!(c.deserialization_errors, 1);
    assert_eq!(c.socket_errors, 2);
    assert_eq!(c.messages_received, 0);
}
