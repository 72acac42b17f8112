//! The broadcast hub: the one piece of state shared by every connection.
//!
//! A `Hub` keeps a bounded ring of the most recently published messages
//! and hands out `Subscription` cursors.  Publishing never blocks and
//! never fails: when the ring is full the oldest pending message is
//! dropped, so a slow subscriber loses old messages instead of stalling
//! the publishers (drop-oldest policy).  A subscription starts at the
//! current end of the log, so past messages are never visible to it.
//!
//! The hub's whole behaviour is stated over a ghost log of every message
//! ever published: `log()` only grows, all subscribers observe delivered
//! messages in log order (a single total order), and a subscriber that
//! fell behind observes one bounded gap and resumes at the oldest message
//! still retained.
//!
//! The hub does not filter by sender: a publisher that also subscribes
//! is delivered its own messages, like every other subscriber.

use vstd::prelude::*;

verus! {

/// Index of the oldest message still retained by a hub whose log has
/// length `len` and whose ring holds at most `cap` messages.
pub open spec fn first_retained(len: nat, cap: nat) -> nat {
    if len <= cap {
        0
    } else {
        (len - cap) as nat
    }
}

/// Cursor position after one `poll` from `cursor` against a log of
/// length `len`: unchanged while caught up, snapped forward to the
/// oldest retained message after a lag, advanced by one otherwise.
pub open spec fn poll_cursor(len: nat, cap: nat, cursor: nat) -> nat {
    if cursor >= len {
        cursor
    } else if cursor < first_retained(len, cap) {
        first_retained(len, cap)
    } else {
        (cursor + 1) as nat
    }
}

/// The log index delivered by one `poll` from `cursor`, if any.
pub open spec fn delivered_at(len: nat, cap: nat, cursor: nat) -> Option<int> {
    if first_retained(len, cap) <= cursor < len {
        Some(cursor as int)
    } else {
        None
    }
}

/// How many messages one `poll` from `cursor` skips for good.
pub open spec fn gap_at(len: nat, cap: nat, cursor: nat) -> nat {
    if cursor < first_retained(len, cap) {
        (first_retained(len, cap) - cursor) as nat
    } else {
        0
    }
}

/// What one `poll` hands the subscriber's writer task.
pub enum RecvOutcome {
    /// The next message in publication order.
    Message(String),
    /// The subscriber lagged: this many messages were dropped for it.
    Lagged(u64),
    /// Nothing published past this subscriber's cursor yet.
    Pending,
}

/// A subscriber's cursor into the hub's delivery stream.
pub struct Subscription {
    cursor: u64,
}

impl Subscription {
    /// The log index of the next message this subscription expects.
    pub closed spec fn index(self) -> nat {
        self.cursor as nat
    }

    /// The cursor's position, for callers that must check it against
    /// the hub before polling.
    pub fn position(&self) -> (r: u64)
        ensures
            r == self.index(),
    {
        self.cursor
    }
}

/// The process-wide fan-out primitive.
pub struct Hub {
    capacity: usize,
    buffer: Vec<String>,
    next_seq: u64,
    subscribers: usize,
    log: Ghost<Seq<Seq<char>>>,
}

impl Hub {
    /// Every message ever published, in publication order.
    pub closed spec fn log(self) -> Seq<Seq<char>> {
        self.log@
    }

    /// The configured bound on how many pending messages are retained.
    pub closed spec fn cap(self) -> nat {
        self.capacity as nat
    }

    /// How many messages the ring currently holds.
    pub closed spec fn buffered(self) -> nat {
        self.buffer@.len()
    }

    /// How many subscriptions are currently registered.
    pub closed spec fn subscriber_count(self) -> nat {
        self.subscribers as nat
    }

    /// The ring holds exactly the retained tail of the log.
    pub closed spec fn wf(self) -> bool {
        &&& self.capacity >= 1
        &&& self.next_seq == self.log@.len()
        &&& self.buffer@.len() == self.log@.len() - first_retained(
            self.log@.len(),
            self.capacity as nat,
        )
        &&& forall|i: int|
            0 <= i < self.buffer@.len() ==> self.buffer@[i]@ == self.log@[first_retained(
                self.log@.len(),
                self.capacity as nat,
            ) + i]
    }

    pub fn new(capacity: usize) -> (h: Hub)
        requires
            capacity >= 1,
        ensures
            h.wf(),
            h.log() == Seq::<Seq<char>>::empty(),
            h.cap() == capacity as nat,
            h.subscriber_count() == 0,
    {
        Hub {
            capacity,
            buffer: Vec::new(),
            next_seq: 0,
            subscribers: 0,
            log: Ghost(Seq::empty()),
        }
    }

    /// How many messages have been published so far.
    pub fn published_count(&self) -> (r: u64)
        requires
            self.wf(),
        ensures
            r == self.log().len(),
    {
        self.next_seq
    }

    /// How many subscriptions are currently registered.
    pub fn active_subscribers(&self) -> (r: usize)
        ensures
            r == self.subscriber_count(),
    {
        self.subscribers
    }

    /// Enqueues `msg` for every current subscriber.  Never blocks and
    /// never fails: if the ring is full the oldest pending message is
    /// dropped, so the hub's memory stays bounded by its capacity.
    pub fn publish(&mut self, msg: String)
        requires
            old(self).wf(),
            old(self).log().len() < u64::MAX,
        ensures
            final (self).wf(),
            final (self).log() == old(self).log().push(msg@),
            final (self).cap() == old(self).cap(),
            final (self).subscriber_count() == old(self).subscriber_count(),
            final (self).buffered() <= final (self).cap(),
    {
        if self.buffer.len() == self.capacity {
            self.buffer.remove(0);
        }
        self.buffer.push(msg);
        self.next_seq = self.next_seq + 1;
        proof {
            self.log@ = self.log@.push(msg@);
        }
    }

    /// Registers a new subscriber whose visibility starts now: its
    /// cursor is the current end of the log, so messages published
    /// before this call are never delivered to it.
    pub fn subscribe(&mut self) -> (s: Subscription)
        requires
            old(self).wf(),
            old(self).subscriber_count() < usize::MAX,
        ensures
            final (self).wf(),
            final (self).log() == old(self).log(),
            final (self).cap() == old(self).cap(),
            final (self).subscriber_count() == old(self).subscriber_count() + 1,
            s.index() == old(self).log().len(),
    {
        self.subscribers = self.subscribers + 1;
        Subscription { cursor: self.next_seq }
    }

    /// Deregisters one subscriber.  The log, the capacity and the ring
    /// are untouched, so what every other subscription will observe is
    /// exactly what it would have observed without this call.
    pub fn unsubscribe(&mut self, s: Subscription)
        requires
            old(self).wf(),
            old(self).subscriber_count() >= 1,
        ensures
            final (self).wf(),
            final (self).log() == old(self).log(),
            final (self).cap() == old(self).cap(),
            final (self).buffered() == old(self).buffered(),
            final (self).subscriber_count() == old(self).subscriber_count() - 1,
    {
        let _ = s;
        self.subscribers = self.subscribers - 1;
    }

    /// One delivery step for `sub`: the next retained message in log
    /// order, or the size of the gap if `sub` fell behind the ring
    /// (the cursor then resumes at the oldest retained message), or
    /// `Pending` when `sub` has seen everything published so far.
    pub fn poll(&self, sub: &mut Subscription) -> (r: RecvOutcome)
        requires
            self.wf(),
            old(sub).index() <= self.log().len(),
        ensures
            final (sub).index() == poll_cursor(self.log().len(), self.cap(), old(sub).index()),
            final (sub).index() <= self.log().len(),
            match r {
                RecvOutcome::Message(m) => {
                    &&& delivered_at(self.log().len(), self.cap(), old(sub).index()) == Some(
                        old(sub).index() as int,
                    )
                    &&& m@ == self.log()[old(sub).index() as int]
                },
                RecvOutcome::Lagged(n) => {
                    &&& delivered_at(self.log().len(), self.cap(), old(sub).index()) is None
                    &&& n == gap_at(self.log().len(), self.cap(), old(sub).index())
                    &&& n > 0
                },
                RecvOutcome::Pending => {
                    &&& old(sub).index() == self.log().len()
                    &&& *final (sub) == *old(sub)
                },
            },
    {
        let len = self.next_seq;
        if sub.cursor == len {
            return RecvOutcome::Pending;
        }
        let first = len - (self.buffer.len() as u64);
        if sub.cursor < first {
            let n = first - sub.cursor;
            sub.cursor = first;
            return RecvOutcome::Lagged(n);
        }
        let idx = (sub.cursor - first) as usize;
        let msg = self.buffer[idx].clone();
        sub.cursor = sub.cursor + 1;
        RecvOutcome::Message(msg)
    }
}

/// A cursor never moves backwards: once a subscriber has observed a
/// message, no later poll can deliver anything published before it.
pub proof fn lemma_cursor_monotone(len: nat, cap: nat, cursor: nat)
    ensures
        poll_cursor(len, cap, cursor) >= cursor,
{
}

/// Deliveries respect the hub's single publication order: whatever a
/// poll delivers after an earlier delivery sits strictly later in the
/// log.  Since each client's own lines enter the log in the order it
/// sent them, every subscriber observes them in that order.
pub proof fn lemma_deliveries_follow_publish_order(
    len1: nat,
    len2: nat,
    cap: nat,
    c1: nat,
    c2: nat,
    i1: int,
    i2: int,
)
    requires
        delivered_at(len1, cap, c1) == Some(i1),
        c2 >= poll_cursor(len1, cap, c1),
        delivered_at(len2, cap, c2) == Some(i2),
    ensures
        i2 > i1,
{
}

/// Fan-out: right after a publish, every subscriber that had seen the
/// whole log is delivered exactly the published message by its next
/// poll.
pub proof fn lemma_publish_reaches_caught_up_subscriber(log: Seq<Seq<char>>, cap: nat, msg: Seq<
    char,
>)
    requires
        cap >= 1,
    ensures
        delivered_at(log.push(msg).len(), cap, log.len()) == Some(log.len() as int),
        log.push(msg)[log.len() as int] == msg,
        poll_cursor(log.push(msg).len(), cap, log.len()) == log.push(msg).len(),
{
}

/// A subscriber whose cursor never dropped below the log length at its
/// subscription time (true at `subscribe`, preserved by every poll) is
/// never delivered a message published before it subscribed.
pub proof fn lemma_no_past_delivery(len_at_subscribe: nat, len: nat, cap: nat, cursor: nat, i: int)
    requires
        cursor >= len_at_subscribe,
        delivered_at(len, cap, cursor) == Some(i),
    ensures
        i >= len_at_subscribe,
        poll_cursor(len, cap, cursor) >= len_at_subscribe,
{
}

/// What a subscription is delivered depends only on the log, the
/// capacity and its own cursor.  Deregistering any other subscriber
/// changes none of the three, so delivery to the remaining subscribers
/// is unaffected by a disconnect.
pub proof fn lemma_disconnect_isolated(h1: Hub, h2: Hub, cursor: nat)
    requires
        h1.log() == h2.log(),
        h1.cap() == h2.cap(),
    ensures
        delivered_at(h1.log().len(), h1.cap(), cursor) == delivered_at(
            h2.log().len(),
            h2.cap(),
            cursor,
        ),
        gap_at(h1.log().len(), h1.cap(), cursor) == gap_at(h2.log().len(), h2.cap(), cursor),
        poll_cursor(h1.log().len(), h1.cap(), cursor) == poll_cursor(
            h2.log().len(),
            h2.cap(),
            cursor,
        ),
{
}

/// A stalled subscriber observes a bounded gap, not unbounded loss:
/// one poll leaves it at most `cap` messages behind the head of the
/// log, and the messages it skipped are exactly the `gap_at` count.
pub proof fn lemma_bounded_lag(len: nat, cap: nat, cursor: nat)
    requires
        cap >= 1,
        cursor <= len,
    ensures
        len - poll_cursor(len, cap, cursor) <= cap,
        gap_at(len, cap, cursor) <= len - cursor,
{
}

} // verus!
