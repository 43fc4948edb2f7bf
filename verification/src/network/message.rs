//! Message queues with priorities, and broadcasting to peers. Each message
//! records when it was queued, in milliseconds since the Unix epoch, and
//! expires five seconds later.
use vstd::prelude::*;

use crate::clock::now_millis;
use crate::execution::AtomicDecisionUnit;
use crate::governance::GovernanceProposal;
use crate::text::{clone_strings, str_eq};

verus! {

/// What peers send each other.
#[derive(Debug, PartialEq)]
pub enum MessageType {
    Adu(AtomicDecisionUnit),
    Proposal(GovernanceProposal),
    Transaction(Vec<u8>),
    Block(Vec<u8>),
    Ping(u64),
    Pong(u64),
    DiscoveryRequest(DiscoveryRequest),
    DiscoveryResponse(DiscoveryResponse),
    ConsensusMessage(Vec<u8>),
}

/// A request for known nodes, with the requester's capabilities.
#[derive(Debug, PartialEq)]
pub struct DiscoveryRequest {
    pub requester_id: String,
    pub network_id: u64,
    pub capabilities: Vec<String>,
}

/// A node as it is described to peers.
#[derive(Debug, PartialEq)]
pub struct NodeDescriptor {
    pub id: String,
    /// Its address, as `host:port`.
    pub address: String,
    pub capabilities: Vec<String>,
    pub version: String,
}

/// The nodes a responder knows of.
#[derive(Debug, PartialEq)]
pub struct DiscoveryResponse {
    pub responder_id: String,
    pub nodes: Vec<NodeDescriptor>,
    pub timestamp: u64,
}

/// How urgent a message is, from least to most.
#[derive(Debug, Clone, Copy, PartialEq, Eq, Structural, PartialOrd, Ord)]
pub enum MessagePriority {
    Low,
    Normal,
    High,
    Critical,
}

/// A queued message.
#[derive(Debug)]
pub struct QueuedMessage {
    pub message: MessageType,
    pub priority: MessagePriority,
    /// The node that sent it, if known.
    pub sender: Option<String>,
    /// When it was queued, in milliseconds since the Unix epoch.
    pub timestamp: u64,
    /// Hops it may still travel.
    pub ttl: u32,
}

/// Whether message `m` is older than `max_age_ms` at time `now_ms`.
pub open spec fn expired_at(m: QueuedMessage, max_age_ms: u64, now_ms: u64) -> bool {
    now_ms > m.timestamp && now_ms - m.timestamp > max_age_ms
}

impl QueuedMessage {
    /// A message created at `now_ms`, with 10 hops to live.
    pub fn new_at(message: MessageType, priority: MessagePriority, sender: Option<String>, now_ms: u64) -> (q: Self)
        ensures
            q == (QueuedMessage { message, priority, sender, timestamp: now_ms, ttl: 10 }),
    {
        QueuedMessage { message, priority, sender, timestamp: now_ms, ttl: 10 }
    }

    /// A message created now, with 10 hops to live.
    pub fn new(message: MessageType, priority: MessagePriority, sender: Option<String>) -> (q: Self)
        ensures
            q.message == message,
            q.priority == priority,
            q.sender == sender,
            q.ttl == 10,
    {
        let t = now_millis();
        Self::new_at(message, priority, sender, t)
    }

    /// Whether the message is older than `max_age_ms` at time `now_ms`.
    pub fn is_expired_at(&self, max_age_ms: u64, now_ms: u64) -> (r: bool)
        ensures
            r == expired_at(*self, max_age_ms, now_ms),
    {
        now_ms > self.timestamp && now_ms - self.timestamp > max_age_ms
    }

    /// Whether the message is older than `max_age_ms` now.
    pub fn is_expired(&self, max_age_ms: u64) -> (r: bool)
        ensures
            exists|t: u64| r == #[trigger] expired_at(*self, max_age_ms, t),
    {
        let t = now_millis();
        self.is_expired_at(max_age_ms, t)
    }
}

/// Counters of the message handler.
#[derive(Debug, Clone, Copy)]
pub struct MessageStats {
    pub total_processed: u64,
    pub total_dropped: u64,
    /// A running average of the processing time, in microseconds.
    pub avg_processing_time: u64,
    /// The lengths of the high, normal and low queues.
    pub queue_sizes: (usize, usize, usize),
}

impl Default for MessageStats {
    fn default() -> (s: Self)
        ensures
            s == (MessageStats { total_processed: 0, total_dropped: 0, avg_processing_time: 0, queue_sizes: (0, 0, 0) }),
    {
        MessageStats { total_processed: 0, total_dropped: 0, avg_processing_time: 0, queue_sizes: (0, 0, 0) }
    }
}

#[verifier::external_type_specification]
#[verifier::external_body]
pub struct ExInstant(std::time::Instant);

/// Reads the monotonic clock (`Instant::now`). Nothing is claimed of it.
#[verifier::external_body]
fn instant_now() -> std::time::Instant {
    std::time::Instant::now()
}

/// Whole microseconds since `start` (`Instant::elapsed`), cut to 64 bits.
/// Nothing is claimed of the value.
#[verifier::external_body]
fn micros_since(start: &std::time::Instant) -> u64 {
    start.elapsed().as_micros() as u64
}

/// The messages of `q` that have not expired at `now_ms` (messages live five
/// seconds), in order.
pub open spec fn fresh(q: Seq<QueuedMessage>, now_ms: u64) -> Seq<QueuedMessage>
    decreases q.len(),
{
    if q.len() == 0 {
        q
    } else {
        let rest = fresh(q.drop_last(), now_ms);
        if expired_at(q.last(), 5000, now_ms) {
            rest
        } else {
            rest.push(q.last())
        }
    }
}

proof fn lemma_fresh_len(q: Seq<QueuedMessage>, now_ms: u64)
    ensures
        fresh(q, now_ms).len() <= q.len(),
    decreases q.len(),
{
    if q.len() > 0 {
        lemma_fresh_len(q.drop_last(), now_ms);
    }
}

/// Whether the queues hold `max` messages or more.
pub open spec fn at_capacity(h: Seq<QueuedMessage>, n: Seq<QueuedMessage>, l: Seq<QueuedMessage>, max: usize) -> bool {
    h.len() + n.len() + l.len() >= max
}

/// Whether a message of priority `p` is refused: the queues are full and no
/// message can make room for it (a low message displaces the oldest low one;
/// any but a critical message the oldest normal one; a critical message the
/// oldest high one).
pub open spec fn refused(h: Seq<QueuedMessage>, n: Seq<QueuedMessage>, l: Seq<QueuedMessage>, p: MessagePriority, max: usize) -> bool {
    &&& at_capacity(h, n, l, max)
    &&& !(p == MessagePriority::Low && l.len() > 0)
    &&& !(p != MessagePriority::Critical && n.len() > 0)
    &&& !(p == MessagePriority::Critical && h.len() > 0)
}

/// The queues after making room for a message of priority `p`.
pub open spec fn after_drop(h: Seq<QueuedMessage>, n: Seq<QueuedMessage>, l: Seq<QueuedMessage>, p: MessagePriority, max: usize) -> (Seq<QueuedMessage>, Seq<QueuedMessage>, Seq<QueuedMessage>) {
    if !at_capacity(h, n, l, max) {
        (h, n, l)
    } else if p == MessagePriority::Low && l.len() > 0 {
        (h, n, l.drop_first())
    } else if p != MessagePriority::Critical && n.len() > 0 {
        (h, n.drop_first(), l)
    } else if p == MessagePriority::Critical && h.len() > 0 {
        (h.drop_first(), n, l)
    } else {
        (h, n, l)
    }
}

/// The queues with `m` appended to the queue of its priority (critical and
/// high messages share the high queue).
pub open spec fn with_message(q: (Seq<QueuedMessage>, Seq<QueuedMessage>, Seq<QueuedMessage>), m: QueuedMessage) -> (Seq<QueuedMessage>, Seq<QueuedMessage>, Seq<QueuedMessage>) {
    match m.priority {
        MessagePriority::Critical | MessagePriority::High => (q.0.push(m), q.1, q.2),
        MessagePriority::Normal => (q.0, q.1.push(m), q.2),
        MessagePriority::Low => (q.0, q.1, q.2.push(m)),
    }
}

/// Queuing a message never takes the queues past their capacity: if they
/// held at most `max` messages, then after expired messages are dropped and
/// an accepted message is queued (displacing one when full), they still do.
pub proof fn lemma_queue_stays_within_capacity(
    h: Seq<QueuedMessage>,
    n: Seq<QueuedMessage>,
    l: Seq<QueuedMessage>,
    m: QueuedMessage,
    max: usize,
    now_ms: u64,
)
    requires
        h.len() + n.len() + l.len() <= max,
        !refused(fresh(h, now_ms), fresh(n, now_ms), fresh(l, now_ms), m.priority, max),
    ensures
        ({
            let q = with_message(after_drop(fresh(h, now_ms), fresh(n, now_ms), fresh(l, now_ms), m.priority, max), m);
            q.0.len() + q.1.len() + q.2.len() <= max
        }),
{
    lemma_fresh_len(h, now_ms);
    lemma_fresh_len(n, now_ms);
    lemma_fresh_len(l, now_ms);
}

/// How many of the flags are set.
pub open spec fn count_set(flags: Seq<bool>) -> nat
    decreases flags.len(),
{
    if flags.len() == 0 {
        0
    } else {
        count_set(flags.drop_last()) + if flags.last() { 1nat } else { 0nat }
    }
}

/// Whether processing at `now_ms` with `processor`, up to `limit`
/// messages, can turn `before` into `after` with answer `r`: after expired
/// messages are dropped, the first `k` queued messages (most urgent first)
/// were handed to the processor, which accepted those flagged; the accepted
/// ones are counted as processed and the others as dropped; processing
/// stopped at `limit` accepted messages or empty queues; the queue lengths
/// are recorded; the running average of processing times changes only if a
/// message was accepted.
pub open spec fn processed_by<F: Fn(QueuedMessage) -> bool>(
    before: MessageHandler,
    after: MessageHandler,
    processor: F,
    limit: usize,
    r: usize,
    now_ms: u64,
) -> bool {
    let q = fresh(before.high(), now_ms) + fresh(before.normal(), now_ms) + fresh(before.low(), now_ms);
    &&& r <= limit
    &&& after.capacity() == before.capacity()
    &&& after.age_limit() == before.age_limit()
    &&& exists|flags: Seq<bool>| {
        &&& flags.len() <= q.len()
        &&& r == count_set(flags)
        &&& (r == limit || flags.len() == q.len())
        &&& forall|i: int| 0 <= i < flags.len() ==> #[trigger] processor.ensures((q[i],), flags[i])
        &&& after.queued() == q.skip(flags.len() as int)
        &&& after.stats().total_processed == before.stats().total_processed + r
        &&& after.stats().total_dropped == before.stats().total_dropped + (flags.len() - r)
        &&& after.stats().queue_sizes == (after.high().len() as usize, after.normal().len() as usize, after.low().len() as usize)
        &&& (r == 0 ==> after.stats().avg_processing_time == before.stats().avg_processing_time)
    }
}

/// Queues messages by priority and hands them out most urgent first.
#[derive(Debug)]
pub struct MessageHandler {
    high_priority_queue: std::collections::VecDeque<QueuedMessage>,
    normal_priority_queue: std::collections::VecDeque<QueuedMessage>,
    low_priority_queue: std::collections::VecDeque<QueuedMessage>,
    max_queue_size: usize,
    max_message_age: u64,
    stats: MessageStats,
}

impl MessageHandler {
    /// The high queue (critical and high messages).
    pub closed spec fn high(&self) -> Seq<QueuedMessage> {
        self.high_priority_queue@
    }

    /// The normal queue.
    pub closed spec fn normal(&self) -> Seq<QueuedMessage> {
        self.normal_priority_queue@
    }

    /// The low queue.
    pub closed spec fn low(&self) -> Seq<QueuedMessage> {
        self.low_priority_queue@
    }

    /// The counters.
    pub closed spec fn stats(&self) -> MessageStats {
        self.stats
    }

    /// How many messages the queues hold at most.
    pub closed spec fn capacity(&self) -> usize {
        self.max_queue_size
    }

    /// The message age limit the handler was made with, in milliseconds.
    pub closed spec fn age_limit(&self) -> u64 {
        self.max_message_age
    }

    /// All queued messages in the order they are handed out.
    pub open spec fn queued(&self) -> Seq<QueuedMessage> {
        self.high() + self.normal() + self.low()
    }

    /// An empty handler for at most `max_queue_size` messages.
    pub fn new(max_queue_size: usize, max_message_age_ms: u64) -> (h: Self)
        ensures
            h.high().len() == 0,
            h.normal().len() == 0,
            h.low().len() == 0,
            h.capacity() == max_queue_size,
            h.age_limit() == max_message_age_ms,
            h.stats() == (MessageStats { total_processed: 0, total_dropped: 0, avg_processing_time: 0, queue_sizes: (0, 0, 0) }),
    {
        MessageHandler {
            high_priority_queue: std::collections::VecDeque::new(),
            normal_priority_queue: std::collections::VecDeque::new(),
            low_priority_queue: std::collections::VecDeque::new(),
            max_queue_size,
            max_message_age: max_message_age_ms,
            stats: MessageStats::default(),
        }
    }

    /// Drops the messages of `queue` that have expired at `now_ms`.
    fn clean_queue_by_age(queue: &mut std::collections::VecDeque<QueuedMessage>, now_ms: u64)
        ensures
            final(queue)@ == fresh(old(queue)@, now_ms),
    {
        let ghost start = queue@;
        let n = queue.len();
        let mut kept: std::collections::VecDeque<QueuedMessage> = std::collections::VecDeque::new();
        let mut i: usize = 0;
        assert(start.skip(0) =~= start);
        while i < n
            invariant
                i <= n,
                n == start.len(),
                queue@ == start.skip(i as int),
                kept@ == fresh(start.take(i as int), now_ms),
            decreases n - i,
        {
            assert(start.take(i + 1).drop_last() =~= start.take(i as int));
            assert(queue@[0] == start[i as int]);
            match queue.pop_front() {
                Some(m) => {
                    if !m.is_expired_at(5000, now_ms) {
                        kept.push_back(m);
                    }
                },
                None => {},
            }
            assert(queue@ =~= start.skip(i + 1));
            i = i + 1;
        }
        assert(start.take(n as int) =~= start);
        *queue = kept;
    }

    /// Drops every message that has expired at `now_ms`.
    pub fn clean_old_messages(&mut self, now_ms: u64)
        ensures
            final(self).high() == fresh(old(self).high(), now_ms),
            final(self).normal() == fresh(old(self).normal(), now_ms),
            final(self).low() == fresh(old(self).low(), now_ms),
            final(self).stats() == old(self).stats(),
            final(self).capacity() == old(self).capacity(),
            final(self).age_limit() == old(self).age_limit(),
    {
        Self::clean_queue_by_age(&mut self.high_priority_queue, now_ms);
        Self::clean_queue_by_age(&mut self.normal_priority_queue, now_ms);
        Self::clean_queue_by_age(&mut self.low_priority_queue, now_ms);
    }

    /// Records the current queue lengths in the counters.
    pub fn update_queue_stats(&mut self)
        ensures
            final(self).stats() == (MessageStats {
                queue_sizes: (old(self).high().len() as usize, old(self).normal().len() as usize, old(self).low().len() as usize),
                ..old(self).stats()
            }),
            final(self).high() == old(self).high(),
            final(self).normal() == old(self).normal(),
            final(self).low() == old(self).low(),
            final(self).capacity() == old(self).capacity(),
            final(self).age_limit() == old(self).age_limit(),
    {
        self.stats.queue_sizes = (
            self.high_priority_queue.len(),
            self.normal_priority_queue.len(),
            self.low_priority_queue.len(),
        );
    }

    /// Whether the queues hold `max_queue_size` messages or more.
    fn is_full(&self) -> (r: bool)
        ensures
            r == at_capacity(self.high(), self.normal(), self.low(), self.capacity()),
    {
        let a = self.high_priority_queue.len();
        let b = self.normal_priority_queue.len();
        let c = self.low_priority_queue.len();
        if a >= self.max_queue_size {
            true
        } else if b >= self.max_queue_size - a {
            true
        } else {
            c >= self.max_queue_size - a - b
        }
    }

    /// Queues `queued_message` at time `now_ms`: expired messages are dropped
    /// first; when the queues are full, room is made (see `after_drop`,
    /// counting one dropped message) or the message is refused (see
    /// `refused`); then the message joins the queue of its priority (see
    /// `with_message`) and the queue lengths are recorded.
    pub fn queue_message_at(&mut self, queued_message: QueuedMessage, now_ms: u64) -> (r: Result<(), &'static str>)
        requires
            old(self).stats().total_dropped < u64::MAX,
        ensures
            final(self).capacity() == old(self).capacity(),
            final(self).age_limit() == old(self).age_limit(),
            ({
                let h = fresh(old(self).high(), now_ms);
                let n = fresh(old(self).normal(), now_ms);
                let l = fresh(old(self).low(), now_ms);
                let max = old(self).capacity();
                if refused(h, n, l, queued_message.priority, max) {
                    &&& r matches Err(e) && e@ == "All queues at maximum capacity"@
                    &&& final(self).high() == h
                    &&& final(self).normal() == n
                    &&& final(self).low() == l
                    &&& final(self).stats() == old(self).stats()
                } else {
                    let q = with_message(after_drop(h, n, l, queued_message.priority, max), queued_message);
                    &&& r is Ok
                    &&& final(self).high() == q.0
                    &&& final(self).normal() == q.1
                    &&& final(self).low() == q.2
                    &&& final(self).stats() == (MessageStats {
                        total_dropped: (old(self).stats().total_dropped + if at_capacity(h, n, l, max) { 1int } else { 0int }) as u64,
                        queue_sizes: (q.0.len() as usize, q.1.len() as usize, q.2.len() as usize),
                        ..old(self).stats()
                    })
                }
            }),
    {
        self.clean_old_messages(now_ms);
        if self.is_full() {
            let p = queued_message.priority;
            if p == MessagePriority::Low && self.low_priority_queue.len() > 0 {
                self.low_priority_queue.pop_front();
                self.stats.total_dropped = self.stats.total_dropped + 1;
            } else if p != MessagePriority::Critical && self.normal_priority_queue.len() > 0 {
                self.normal_priority_queue.pop_front();
                self.stats.total_dropped = self.stats.total_dropped + 1;
            } else if p == MessagePriority::Critical && self.high_priority_queue.len() > 0 {
                self.high_priority_queue.pop_front();
                self.stats.total_dropped = self.stats.total_dropped + 1;
            } else {
                proof {
                    reveal_strlit("All queues at maximum capacity");
                }
                return Err("All queues at maximum capacity");
            }
        }
        match queued_message.priority {
            MessagePriority::Critical | MessagePriority::High => {
                self.high_priority_queue.push_back(queued_message);
            },
            MessagePriority::Normal => {
                self.normal_priority_queue.push_back(queued_message);
            },
            MessagePriority::Low => {
                self.low_priority_queue.push_back(queued_message);
            },
        }
        self.update_queue_stats();
        Ok(())
    }

    /// Queues `queued_message` now (see `queue_message_at`).
    pub fn queue_message(&mut self, queued_message: QueuedMessage) -> (r: Result<(), &'static str>)
        requires
            old(self).stats().total_dropped < u64::MAX,
        ensures
            final(self).capacity() == old(self).capacity(),
            exists|t: u64| {
                let h = #[trigger] fresh(old(self).high(), t);
                let n = fresh(old(self).normal(), t);
                let l = fresh(old(self).low(), t);
                let max = old(self).capacity();
                if refused(h, n, l, queued_message.priority, max) {
                    &&& r is Err
                    &&& final(self).high() == h
                    &&& final(self).normal() == n
                    &&& final(self).low() == l
                } else {
                    let q = with_message(after_drop(h, n, l, queued_message.priority, max), queued_message);
                    &&& r is Ok
                    &&& final(self).high() == q.0
                    &&& final(self).normal() == q.1
                    &&& final(self).low() == q.2
                }
            },
    {
        let t = now_millis();
        let ghost m = queued_message;
        let r = self.queue_message_at(queued_message, t);
        assert(fresh(old(self).high(), t) == fresh(old(self).high(), t));
        r
    }

    /// Hands out the oldest message of the most urgent non-empty queue, if
    /// any: the first message of `queued`.
    pub fn dequeue_next_message(&mut self) -> (r: Option<QueuedMessage>)
        ensures
            old(self).queued().len() == 0 ==> r is None && final(self).queued() == old(self).queued(),
            old(self).queued().len() > 0 ==> r == Some(old(self).queued()[0])
                && final(self).queued() == old(self).queued().drop_first(),
            old(self).high().len() > 0 ==> final(self).high() == old(self).high().drop_first()
                && final(self).normal() == old(self).normal() && final(self).low() == old(self).low(),
            old(self).high().len() == 0 && old(self).normal().len() > 0 ==> final(self).high() == old(self).high()
                && final(self).normal() == old(self).normal().drop_first() && final(self).low() == old(self).low(),
            old(self).high().len() == 0 && old(self).normal().len() == 0 ==> final(self).high() == old(self).high()
                && final(self).normal() == old(self).normal() && final(self).low() == (if old(self).low().len() > 0 {
                old(self).low().drop_first()
            } else {
                old(self).low()
            }),
            final(self).stats() == old(self).stats(),
            final(self).capacity() == old(self).capacity(),
            final(self).age_limit() == old(self).age_limit(),
    {
        let ghost q = self.queued();
        if self.high_priority_queue.len() > 0 {
            let r = self.high_priority_queue.pop_front();
            assert(self.queued() =~= q.drop_first());
            return r;
        }
        if self.normal_priority_queue.len() > 0 {
            let r = self.normal_priority_queue.pop_front();
            assert(old(self).high() =~= Seq::<QueuedMessage>::empty());
            assert(self.queued() =~= q.drop_first());
            return r;
        }
        let r = self.low_priority_queue.pop_front();
        assert(self.queued() =~= (if q.len() > 0 { q.drop_first() } else { q }));
        r
    }

    /// Processes queued messages at time `now_ms` until `limit` have been
    /// processed or the queues are empty: expired messages are dropped
    /// first; messages are taken most urgent first; a message `processor`
    /// accepts counts as processed (and its processing time feeds the
    /// average), one it refuses is dropped. The answer is the number
    /// processed; the queue lengths are recorded at the end.
    pub fn process_pending_messages_at<F: Fn(QueuedMessage) -> bool>(&mut self, limit: usize, processor: F, now_ms: u64) -> (r: usize)
        requires
            forall|m: QueuedMessage| #[trigger] processor.requires((m,)),
            old(self).stats().total_processed + limit <= u64::MAX,
            old(self).stats().total_dropped + old(self).queued().len() <= u64::MAX,
        ensures
            processed_by(*old(self), *final(self), processor, limit, r, now_ms),
    {
        proof {
            lemma_fresh_len(old(self).high(), now_ms);
            lemma_fresh_len(old(self).normal(), now_ms);
            lemma_fresh_len(old(self).low(), now_ms);
        }
        self.clean_old_messages(now_ms);
        let ghost q = self.queued();
        let ghost mut k: int = 0;
        let ghost mut flags: Seq<bool> = Seq::empty();
        let mut processed: usize = 0;
        let mut done = false;
        assert(q.skip(0) =~= q);
        while processed < limit && !done
            invariant
                forall|m: QueuedMessage| #[trigger] processor.requires((m,)),
                processed <= limit,
                processed <= k <= q.len(),
                flags.len() == k,
                processed == count_set(flags),
                forall|i: int| 0 <= i < flags.len() ==> #[trigger] processor.ensures((q[i],), flags[i]),
                processed == 0 ==> self.stats().avg_processing_time == old(self).stats().avg_processing_time,
                done ==> k == q.len(),
                self.queued() == q.skip(k),
                self.stats().total_processed == old(self).stats().total_processed + processed,
                self.stats().total_dropped == old(self).stats().total_dropped + (k - processed),
                old(self).stats().total_processed + limit <= u64::MAX,
                old(self).stats().total_dropped + q.len() <= u64::MAX,
                self.capacity() == old(self).capacity(),
                self.age_limit() == old(self).age_limit(),
            decreases q.len() - k, if done { 0int } else { 1int },
        {
            match self.dequeue_next_message() {
                Some(message) => {
                    let start = instant_now();
                    assert(q.skip(k).drop_first() =~= q.skip(k + 1));
                    assert(message == q[k]);
                    let ghost before_flags = flags;
                    let accepted = processor(message);
                    proof {
                        flags = before_flags.push(accepted);
                        assert(flags.drop_last() =~= before_flags);
                        assert forall|i: int| 0 <= i < flags.len() implies #[trigger] processor.ensures((q[i],), flags[i]) by {
                            if i < k {
                                assert(flags[i] == before_flags[i]);
                            }
                        }
                        k = k + 1;
                    }
                    if accepted {
                        processed = processed + 1;
                        self.stats.total_processed = self.stats.total_processed + 1;
                        let elapsed = micros_since(&start);
                        let sum: u128 = self.stats.avg_processing_time as u128 + elapsed as u128;
                        self.stats.avg_processing_time = (sum / 2) as u64;
                    } else {
                        self.stats.total_dropped = self.stats.total_dropped + 1;
                    }
                },
                None => {
                    done = true;
                },
            }
        }
        self.update_queue_stats();
        proof {
            assert(self.queued() == q.skip(k));
            assert(processed_by(*old(self), *self, processor, limit, processed, now_ms));
        }
        processed
    }

    /// Processes queued messages now (see `process_pending_messages_at`).
    pub fn process_pending_messages<F: Fn(QueuedMessage) -> bool>(&mut self, limit: usize, processor: F) -> (r: usize)
        requires
            forall|m: QueuedMessage| #[trigger] processor.requires((m,)),
            old(self).stats().total_processed + limit <= u64::MAX,
            old(self).stats().total_dropped + old(self).queued().len() <= u64::MAX,
        ensures
            exists|t: u64| #[trigger] processed_by(*old(self), *final(self), processor, limit, r, t),
    {
        let t = now_millis();
        self.process_pending_messages_at(limit, processor, t)
    }

    /// The counters.
    pub fn get_stats(&self) -> (s: MessageStats)
        ensures
            s == self.stats(),
    {
        self.stats
    }

    /// The lengths of the high, normal and low queues.
    pub fn get_queue_depths(&self) -> (d: (usize, usize, usize))
        ensures
            d == (self.high().len() as usize, self.normal().len() as usize, self.low().len() as usize),
    {
        (self.high_priority_queue.len(), self.normal_priority_queue.len(), self.low_priority_queue.len())
    }

    /// Empties every queue.
    pub fn purge_queues(&mut self)
        ensures
            final(self).high().len() == 0,
            final(self).normal().len() == 0,
            final(self).low().len() == 0,
            final(self).stats() == old(self).stats(),
            final(self).capacity() == old(self).capacity(),
            final(self).age_limit() == old(self).age_limit(),
    {
        self.high_priority_queue.clear();
        self.normal_priority_queue.clear();
        self.low_priority_queue.clear();
    }
}

/// A broadcast under way.
#[derive(Debug)]
struct BroadcastTask {
    message: MessageType,
    target_peers: Vec<String>,
    completed_peers: Vec<String>,
    failed_peers: Vec<String>,
    started_at: u64,
}

/// The peers' ids, by their views.
pub open spec fn id_texts(v: Seq<String>) -> Seq<Seq<char>> {
    v.map_values(|s: String| s@)
}

/// The ids of `ps` other than `id`, in order.
pub open spec fn without_id(ps: Seq<Seq<char>>, id: Seq<char>) -> Seq<Seq<char>>
    decreases ps.len(),
{
    if ps.len() == 0 {
        ps
    } else {
        let rest = without_id(ps.drop_last(), id);
        if ps.last() != id {
            rest.push(ps.last())
        } else {
            rest
        }
    }
}

/// Broadcasts messages to known peers, a bounded number at a time.
#[derive(Debug)]
pub struct BroadcastManager {
    peers: Vec<String>,
    active_broadcasts: Vec<BroadcastTask>,
    max_concurrent_broadcasts: usize,
}

impl BroadcastManager {
    /// The known peers, in the order they were added.
    pub closed spec fn peer_ids(&self) -> Seq<Seq<char>> {
        id_texts(self.peers@)
    }

    /// The targets of each active broadcast, in the order they started.
    pub closed spec fn broadcast_targets(&self) -> Seq<Seq<Seq<char>>> {
        self.active_broadcasts@.map_values(|t: BroadcastTask| id_texts(t.target_peers@))
    }

    /// How many broadcasts may be active at once.
    pub closed spec fn max_broadcasts(&self) -> usize {
        self.max_concurrent_broadcasts
    }

    /// A manager with no peers or broadcasts.
    pub fn new(max_concurrent_broadcasts: usize) -> (b: Self)
        ensures
            b.peer_ids().len() == 0,
            b.broadcast_targets().len() == 0,
            b.max_broadcasts() == max_concurrent_broadcasts,
    {
        BroadcastManager { peers: Vec::new(), active_broadcasts: Vec::new(), max_concurrent_broadcasts }
    }

    /// Adds `peer_id` unless it is known already.
    pub fn add_peer(&mut self, peer_id: String)
        ensures
            final(self).peer_ids() == if old(self).peer_ids().contains(peer_id@) {
                old(self).peer_ids()
            } else {
                old(self).peer_ids().push(peer_id@)
            },
            final(self).broadcast_targets() == old(self).broadcast_targets(),
            final(self).max_broadcasts() == old(self).max_broadcasts(),
    {
        let mut i: usize = 0;
        while i < self.peers.len()
            invariant
                i <= self.peers@.len(),
                forall|j: int| 0 <= j < i ==> id_texts(self.peers@)[j] != peer_id@,
            decreases self.peers@.len() - i,
        {
            if str_eq(self.peers[i].as_str(), peer_id.as_str()) {
                assert(id_texts(self.peers@)[i as int] == peer_id@);
                return;
            }
            i = i + 1;
        }
        let ghost before = self.peers@;
        self.peers.push(peer_id);
        assert(id_texts(self.peers@) =~= id_texts(before).push(peer_id@));
    }

    /// Forgets every peer with id `peer_id`.
    pub fn remove_peer(&mut self, peer_id: &str)
        ensures
            final(self).peer_ids() == without_id(old(self).peer_ids(), peer_id@),
            final(self).broadcast_targets() == old(self).broadcast_targets(),
            final(self).max_broadcasts() == old(self).max_broadcasts(),
    {
        let ghost start = id_texts(self.peers@);
        let mut kept: Vec<String> = Vec::new();
        let mut i: usize = 0;
        while i < self.peers.len()
            invariant
                i <= self.peers@.len(),
                start == id_texts(self.peers@),
                id_texts(kept@) == without_id(start.take(i as int), peer_id@),
            decreases self.peers@.len() - i,
        {
            assert(start.take(i + 1).drop_last() =~= start.take(i as int));
            if !str_eq(self.peers[i].as_str(), peer_id) {
                let ghost before = kept@;
                kept.push(self.peers[i].clone());
                assert(id_texts(kept@) =~= id_texts(before).push(start[i as int]));
            }
            i = i + 1;
        }
        assert(start.take(i as int) =~= start);
        self.peers = kept;
    }

    /// Starts broadcasting `message` at time `now_ms` to `target_peers`, or
    /// to every known peer when none are given. Nothing starts (answer 0)
    /// when there is no target or the maximum number of broadcasts is under
    /// way; otherwise the answer is the number of targets.
    pub fn broadcast_message_at(&mut self, message: MessageType, target_peers: Option<Vec<String>>, now_ms: u64) -> (r: usize)
        ensures
            final(self).peer_ids() == old(self).peer_ids(),
            final(self).max_broadcasts() == old(self).max_broadcasts(),
            ({
                let targets = match target_peers {
                    Some(p) => id_texts(p@),
                    None => old(self).peer_ids(),
                };
                if targets.len() == 0 || old(self).broadcast_targets().len() >= old(self).max_broadcasts() {
                    r == 0 && final(self).broadcast_targets() == old(self).broadcast_targets()
                } else {
                    r == targets.len() && final(self).broadcast_targets() == old(self).broadcast_targets().push(targets)
                }
            }),
    {
        let targets = match target_peers {
            Some(p) => p,
            None => clone_strings(&self.peers),
        };
        if targets.len() == 0 {
            return 0;
        }
        if self.active_broadcasts.len() >= self.max_concurrent_broadcasts {
            return 0;
        }
        let n = targets.len();
        let task = BroadcastTask {
            message,
            target_peers: targets,
            completed_peers: Vec::new(),
            failed_peers: Vec::new(),
            started_at: now_ms,
        };
        let ghost tv = id_texts(task.target_peers@);
        let ghost before = self.active_broadcasts@;
        self.active_broadcasts.push(task);
        assert(self.broadcast_targets() =~= before.map_values(|t: BroadcastTask| id_texts(t.target_peers@)).push(tv));
        n
    }

    /// Starts broadcasting `message` now (see `broadcast_message_at`).
    pub fn broadcast_message(&mut self, message: MessageType, target_peers: Option<Vec<String>>) -> (r: usize)
        ensures
            final(self).peer_ids() == old(self).peer_ids(),
            final(self).max_broadcasts() == old(self).max_broadcasts(),
            ({
                let targets = match target_peers {
                    Some(p) => id_texts(p@),
                    None => old(self).peer_ids(),
                };
                if targets.len() == 0 || old(self).broadcast_targets().len() >= old(self).max_broadcasts() {
                    r == 0 && final(self).broadcast_targets() == old(self).broadcast_targets()
                } else {
                    r == targets.len() && final(self).broadcast_targets() == old(self).broadcast_targets().push(targets)
                }
            }),
    {
        let t = now_millis();
        self.broadcast_message_at(message, target_peers, t)
    }

    /// The known peers, in the order they were added.
    pub fn get_peers(&self) -> (r: &[String])
        ensures
            id_texts(r@) == self.peer_ids(),
    {
        self.peers.as_slice()
    }

    /// The number of active broadcasts.
    pub fn get_active_broadcasts_count(&self) -> (n: usize)
        ensures
            n == self.broadcast_targets().len(),
    {
        self.active_broadcasts.len()
    }
}

} // verus!
