//! The bookkeeping of a multicast publisher: what each publish attempt does
//! to its statistics.
use std::time::Instant;
use vstd::prelude::*;

verus! {

/// A point in time, as `std::time::Instant` measures it; the library only
/// stores and hands back such values.
#[verifier::external_type_specification]
#[verifier::external_body]
pub struct ExInstant(Instant);

/// Statistics for the multicast publisher.
#[derive(Debug, Clone, Copy)]
pub struct PublisherStatistics {
    /// Total number of messages published
    pub messages_published: u64,
    /// Total number of bytes published
    pub bytes_published: u64,
    /// Total number of publish errors
    pub publish_errors: u64,
    /// Maximum message size published
    pub max_message_size: usize,
    /// Last publish timestamp
    pub last_publish_time: Option<Instant>,
}

pub open spec fn max_usize(a: usize, b: usize) -> usize {
    if a >= b {
        a
    } else {
        b
    }
}

impl PublisherStatistics {
    /// Statistics with nothing recorded.
    pub open spec fn spec_fresh() -> PublisherStatistics {
        PublisherStatistics {
            messages_published: 0,
            bytes_published: 0,
            publish_errors: 0,
            max_message_size: 0,
            last_publish_time: None,
        }
    }

    /// Whether a message sent with `bytes_sent` bytes can be counted without
    /// a counter passing `u64::MAX`.
    pub open spec fn can_record_sent(self, bytes_sent: usize) -> bool {
        &&& self.messages_published < u64::MAX
        &&& self.bytes_published + bytes_sent <= u64::MAX
    }

    /// The statistics once a message of `message_len` bytes was sent, with
    /// `bytes_sent` bytes, at `now`.
    pub open spec fn recorded_sent(self, message_len: usize, bytes_sent: usize, now: Instant) -> PublisherStatistics {
        PublisherStatistics {
            messages_published: (self.messages_published + 1) as u64,
            bytes_published: (self.bytes_published + bytes_sent) as u64,
            publish_errors: self.publish_errors,
            max_message_size: max_usize(self.max_message_size, message_len),
            last_publish_time: Some(now),
        }
    }

    /// Statistics with nothing recorded.
    pub fn fresh() -> (s: PublisherStatistics)
        ensures
            s == PublisherStatistics::spec_fresh(),
    {
        PublisherStatistics {
            messages_published: 0,
            bytes_published: 0,
            publish_errors: 0,
            max_message_size: 0,
            last_publish_time: None,
        }
    }

    /// Whether a message sent with `bytes_sent` bytes can be counted.
    pub fn has_room_for_sent(&self, bytes_sent: usize) -> (b: bool)
        ensures
            b == self.can_record_sent(bytes_sent),
    {
        self.messages_published < u64::MAX && bytes_sent as u64 <= u64::MAX
            - self.bytes_published
    }

    /// Counts a message of `message_len` bytes that was sent, with
    /// `bytes_sent` bytes, at `now`.
    pub fn record_sent(&mut self, message_len: usize, bytes_sent: usize, now: Instant)
        requires
            old(self).can_record_sent(bytes_sent),
        ensures
            *final(self) == old(self).recorded_sent(message_len, bytes_sent, now),
    {
        self.messages_published = self.messages_published + 1;
        self.bytes_published = self.bytes_published + bytes_sent as u64;
        if message_len > self.max_message_size {
            self.max_message_size = message_len;
        }
        self.last_publish_time = Some(now);
    }

    /// Counts a publish attempt that failed; nothing else changes.
    pub fn record_error(&mut self)
        requires
            old(self).publish_errors < u64::MAX,
        ensures
            *final(self) == (PublisherStatistics {
                publish_errors: (old(self).publish_errors + 1) as u64,
                ..*old(self)
            }),
    {
        self.publish_errors = self.publish_errors + 1;
    }

    /// Forgets everything recorded.
    pub fn reset(&mut self)
        ensures
            *final(self) == PublisherStatistics::spec_fresh(),
    {
        *self = PublisherStatistics::fresh();
    }
}

impl Default for PublisherStatistics {
    fn default() -> (s: PublisherStatistics)
        ensures
            s == PublisherStatistics::spec_fresh(),
    {
        PublisherStatistics::fresh()
    }
}

/// A message that was sent: its length, the bytes sent, and when.
pub type SentMessage = (usize, usize, Instant);

/// The statistics after the messages `sent` were counted, in order.
pub open spec fn after_sent(s: PublisherStatistics, sent: Seq<SentMessage>) -> PublisherStatistics
    decreases sent.len(),
{
    if sent.len() == 0 {
        s
    } else {
        let (len, bytes, now) = sent.last();
        after_sent(s, sent.drop_last()).recorded_sent(len, bytes, now)
    }
}

/// The number of bytes sent for all of `sent`.
pub open spec fn total_bytes(sent: Seq<SentMessage>) -> int
    decreases sent.len(),
{
    if sent.len() == 0 {
        0
    } else {
        total_bytes(sent.drop_last()) + sent.last().1
    }
}

/// The length of the longest message of `sent`, 0 when there is none.
pub open spec fn longest_message(sent: Seq<SentMessage>) -> usize
    decreases sent.len(),
{
    if sent.len() == 0 {
        0
    } else {
        max_usize(longest_message(sent.drop_last()), sent.last().0)
    }
}

proof fn lemma_total_bytes_grows(sent: Seq<SentMessage>)
    ensures
        total_bytes(sent) >= 0,
        sent.len() > 0 ==> total_bytes(sent) >= total_bytes(sent.drop_last()),
    decreases sent.len(),
{
    if sent.len() > 0 {
        lemma_total_bytes_grows(sent.drop_last());
    }
}

/// Publishing a batch: counting the messages of a batch one by one adds the
/// number of messages to `messages_published` and the bytes sent to
/// `bytes_published`, raises `max_message_size` to the longest message, keeps
/// `publish_errors`, and leaves the time of the last message, when the batch is
/// not empty.
pub proof fn lemma_batch_totals(s: PublisherStatistics, sent: Seq<SentMessage>)
    requires
        s.messages_published + sent.len() <= u64::MAX,
        s.bytes_published + total_bytes(sent) <= u64::MAX,
    ensures
        after_sent(s, sent).messages_published == s.messages_published + sent.len(),
        after_sent(s, sent).bytes_published == s.bytes_published + total_bytes(sent),
        after_sent(s, sent).publish_errors == s.publish_errors,
        after_sent(s, sent).max_message_size == max_usize(s.max_message_size, longest_message(sent)),
        sent.len() > 0 ==> after_sent(s, sent).last_publish_time == Some(sent.last().2),
        sent.len() == 0 ==> after_sent(s, sent) == s,
    decreases sent.len(),
{
    if sent.len() > 0 {
        lemma_total_bytes_grows(sent);
        lemma_total_bytes_grows(sent.drop_last());
        lemma_batch_totals(s, sent.drop_last());
    }
}

} // verus!
