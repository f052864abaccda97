//! The state that the handles of a channel share.
use crate::channel::{
    adjust_outcome, broadcast_done, broadcast_outcome, left, received, steps_to_tail, Channel,
};
use crate::cursors::{
    behind, lemma_behind_all, lemma_behind_insert, lemma_behind_monotone, lemma_behind_moved,
    lemma_behind_remove, lemma_behind_strict, lemma_behind_witness, lemma_moved_len, moved,
};
use crate::errors::{TryRecvError, TrySendError};
use crate::limiter::{
    adjusts, admits, lemma_count_adjusts, messages, AdjustableCapacityLimiter, Admission,
    CapacityLimiter, Contents, ElementCountLimiter,
};
use crate::queue::queue_get_mut;
use crate::signal::Ops;
use event_listener::EventListener;
use std::collections::VecDeque;
use vstd::multiset::Multiset;
use vstd::prelude::*;

verus! {

/// The queue of a channel, and who takes part in it.
///
/// Handles do not hold this state: it is passed to each of their operations, so that whoever
/// shares a channel between threads can put it behind a lock of their choice. A handle goes only
/// with the state it was made with: a state counts its own handles, and knows nothing of others.
pub struct Inner<T, L> {
    /// The messages, each with the number of receivers that have not read it yet.
    queue: VecDeque<(T, usize)>,
    capacity: L,
    receiver_count: usize,
    inactive_receiver_count: usize,
    sender_count: usize,
    /// Send sequence number of the front of the queue
    head_pos: u64,
    overflow: bool,
    is_closed: bool,
    /// Send operations waiting while the channel is full.
    send_ops: Ops,
    /// Receive operations waiting while the channel is empty and not closed.
    recv_ops: Ops,
    /// All messages ever sent.
    sent: Ghost<Seq<T>>,
    /// The positions of the active receivers.
    receivers: Ghost<Multiset<nat>>,
}

impl<T, L> View for Inner<T, L> {
    type V = Channel<T, L>;

    closed spec fn view(&self) -> Channel<T, L> {
        Channel {
            sent: self.sent@,
            head: self.head_pos as nat,
            limiter: self.capacity,
            receivers: self.receivers@,
            inactive: self.inactive_receiver_count as nat,
            senders: self.sender_count as nat,
            overflow: self.overflow,
            closed: self.is_closed,
            send_ops: self.send_ops@,
            recv_ops: self.recv_ops@,
        }
    }
}

impl<T, L> Inner<T, L> {
    /// The queue is the part of the log from the head on, and its counts and those of the
    /// receivers are right.
    pub closed spec fn represents(self) -> bool {
        &&& self.receiver_count == self.receivers@.len()
        &&& self.queue@.len() == self.sent@.len() - self.head_pos
        &&& forall|i: int|
            0 <= i < self.queue@.len() ==> (#[trigger] self.queue@[i]).0 == self.sent@[self.head_pos
                + i] && self.queue@[i].1 == behind(self.receivers@, (self.head_pos + i) as nat)
    }

    /// The listener is notified where those are who wait to send.
    pub closed spec fn send_heard_by(self, listener: EventListener) -> bool {
        self.send_ops.heard_by(listener)
    }

    /// The listener is notified where those are who wait to receive.
    pub closed spec fn recv_heard_by(self, listener: EventListener) -> bool {
        self.recv_ops.heard_by(listener)
    }

    /// A send operation with this listener, if it has one, waits for this channel.
    pub open spec fn wakes_send(self, listener: Option<EventListener>) -> bool {
        listener matches Some(l) ==> self.send_heard_by(l)
    }

    /// A receive operation with this listener, if it has one, waits for this channel.
    pub open spec fn wakes_recv(self, listener: Option<EventListener>) -> bool {
        listener matches Some(l) ==> self.recv_heard_by(l)
    }

    /// Whoever waits for this channel waits for `post` as well.
    pub open spec fn keeps_listeners(self, post: Self) -> bool {
        &&& forall|l: EventListener|
            #![trigger self.send_heard_by(l)]
            #![trigger post.send_heard_by(l)]
            self.send_heard_by(l) ==> post.send_heard_by(l)
        &&& forall|l: EventListener|
            #![trigger self.recv_heard_by(l)]
            #![trigger post.recv_heard_by(l)]
            self.recv_heard_by(l) ==> post.recv_heard_by(l)
    }

    /// The representation fits, and the channel is coherent.
    pub open spec fn consistent(self) -> bool {
        self.represents() && self@.coherent()
    }

    /// What holds between any two operations.
    pub open spec fn wf(self) -> bool {
        self.represents() && self@.valid()
    }
}

impl<T, L: CapacityLimiter<T>> Inner<T, L> {
    /// Try receiving at the given position, returning either the element or a reference to it.
    ///
    /// The last receiver to read the oldest message gets the message itself; all others get a
    /// reference to it.
    pub fn try_recv_at(&mut self, pos: &mut u64) -> (result: Result<Result<T, &T>, TryRecvError>)
        requires
            old(self).wf(),
            old(self)@.receivers.contains(*old(pos) as nat),
        ensures
            final(self).wf(),
            old(self).keeps_listeners(*final(self)),
            received(old(self)@, *old(pos) as nat, final(self)@),
            *final(pos) == old(self)@.next(*old(pos) as nat),
            match result {
                Ok(Ok(m)) => {
                    &&& old(self)@.releases(*old(pos) as nat)
                    &&& old(self)@.reads(*old(pos) as nat) == Ok::<T, TryRecvError>(m)
                },
                Ok(Err(m)) => {
                    &&& !old(self)@.releases(*old(pos) as nat)
                    &&& old(self)@.reads(*old(pos) as nat) == Ok::<T, TryRecvError>(*m)
                },
                Err(e) => old(self)@.reads(*old(pos) as nat) == Err::<T, _>(e),
            },
    {
        let ghost pre = self@;
        let ghost from = *pos as nat;
        let ghost to = pre.next(from);
        proof {
            lemma_moved_len(self.receivers@, from, to);
            assert(from <= pre.tail());
        }
        let i: usize = match pos.checked_sub(self.head_pos) {
            Some(i) => i as usize,
            None => {
                let count: u64 = self.head_pos - *pos;
                *pos = self.head_pos;
                proof {
                    self.receivers = Ghost(moved(self.receivers@, from, to));
                    assert forall|i: int| 0 <= i < self.queue@.len() implies (
                    #[trigger] self.queue@[i]).1 == behind(
                        self.receivers@,
                        (self.head_pos + i) as nat,
                    ) by {
                        lemma_behind_moved(pre.receivers, from, to, (self.head_pos + i) as nat);
                    }
                    lemma_behind_moved(pre.receivers, from, to, self.head_pos as nat);
                }
                return Err(TryRecvError::Overflowed(count));
            },
        };
        assert(i == from - pre.head);

        let last_waiter: bool;
        let ghost queue_pre = self.queue@;
        if let Some(entry) = queue_get_mut(&mut self.queue, i) {
            proof {
                lemma_behind_remove(pre.receivers, from, from);
            }
            *pos += 1;
            entry.1 -= 1;
            last_waiter = entry.1 == 0;
        } else {
            assert(i == self.queue@.len());
            assert(self.receivers@ =~= moved(self.receivers@, from, to));
            if self.is_closed {
                return Err(TryRecvError::Closed);
            } else {
                return Err(TryRecvError::Empty);
            }
        }
        proof {
            self.receivers = Ghost(moved(self.receivers@, from, to));
            assert forall|k: int| 0 <= k < self.queue@.len() implies {
                &&& (#[trigger] self.queue@[k]).0 == self.sent@[self.head_pos + k]
                &&& self.queue@[k].1 == behind(self.receivers@, (self.head_pos + k) as nat)
            } by {
                lemma_behind_moved(pre.receivers, from, to, (self.head_pos + k) as nat);
                assert(queue_pre[k].0 == self.sent@[self.head_pos + k]);
            }
            // Only the first element of the queue can be left without waiters.
            if i > 0 {
                lemma_behind_strict(pre.receivers, pre.head, from, from);
            }
            lemma_behind_moved(pre.receivers, from, to, pre.head);
        }

        // If we read from the front of the queue and this is the last receiver reading it
        // we can pop the queue instead of cloning the message
        if last_waiter {
            assert(i == 0);
            let ghost before = *self;

            // Remove the element from the queue, adjust space, and notify senders
            let elt = self.queue.pop_front().unwrap().0;
            assert(messages(self.queue@) =~= pre.queue().skip(1));
            assert(elt == pre.queue()[0]);
            self.capacity.remove(&elt, Contents::new(&self.queue));
            self.head_pos += 1;
            if !self.overflow {
                // Notify 1 awaiting senders that there is now room. If there is still room in the
                // queue, the notified operation will notify another awaiting sender.
                self.send_ops.notify(1);
            }
            proof {
                assert forall|k: int| 0 <= k < self.queue@.len() implies {
                    &&& (#[trigger] self.queue@[k]).0 == self.sent@[self.head_pos + k]
                    &&& self.queue@[k].1 == behind(self.receivers@, (self.head_pos + k) as nat)
                } by {
                    assert(self.queue@[k] == before.queue@[k + 1]);
                }
                lemma_behind_witness(self.receivers@, self.head_pos as nat);
            }
            Ok(Ok(elt))
        } else {
            Ok(Err(&self.queue[i].0))
        }
    }

    /// Removes the oldest message, whether or not everybody has read it, and tells the limiter.
    fn evict(&mut self) -> (evicted: Option<T>)
        requires
            old(self).wf(),
        ensures
            final(self).wf(),
            old(self).keeps_listeners(*final(self)),
            match evicted {
                Some(m) => {
                    &&& old(self)@.queue().len() > 0
                    &&& m == old(self)@.queue()[0]
                    &&& L::removed(
                        old(self)@.limiter,
                        m,
                        old(self)@.queue().skip(1),
                        final(self)@.limiter,
                    )
                    &&& final(self)@ == Channel {
                        head: old(self)@.head + 1,
                        limiter: final(self)@.limiter,
                        ..old(self)@
                    }
                },
                None => old(self)@.queue().len() == 0 && final(self)@ == old(self)@,
            },
    {
        let ghost pre = *self;
        match self.queue.pop_front() {
            Some((elt, _)) => {
                self.head_pos += 1;
                assert(messages(self.queue@) =~= pre@.queue().skip(1));
                self.capacity.remove(&elt, Contents::new(&self.queue));
                proof {
                    assert forall|k: int| 0 <= k < self.queue@.len() implies {
                        &&& (#[trigger] self.queue@[k]).0 == self.sent@[self.head_pos + k]
                        &&& self.queue@[k].1 == behind(self.receivers@, (self.head_pos + k) as nat)
                    } by {
                        assert(self.queue@[k] == pre.queue@[k + 1]);
                    }
                    assert(elt == pre.queue@[0].0);
                    lemma_behind_monotone(
                        self.receivers@,
                        pre.head_pos as nat,
                        self.head_pos as nat,
                    );
                }
                Some(elt)
            },
            None => None,
        }
    }

    /// Attempts to send a message.
    ///
    /// The limiter is asked for room. In overflow mode the oldest messages are removed one by one
    /// until it agrees, and the last one removed is returned.
    pub fn try_broadcast(&mut self, msg: T) -> (result: Result<
        Option<T>,
        TrySendError<T, L::Error>,
    >)
        requires
            old(self).wf(),
            old(self)@.tail() < u64::MAX,
        ensures
            final(self).wf(),
            old(self).keeps_listeners(*final(self)),
            broadcast_outcome(old(self)@, msg, final(self)@, result),
    {
        let ghost pre = self@;
        let mut ret: Option<T> = None;
        if self.is_closed {
            return Err(TrySendError::Closed(msg));
        } else if self.receiver_count == 0 {
            assert(self.inactive_receiver_count != 0);
            return Err(TrySendError::Inactive(msg));
        }
        let ghost mut evicted: nat = 0;
        assert(pre.queue().skip(0) =~= pre.queue());
        assert(self@ =~= Channel { head: pre.head + evicted, limiter: self@.limiter, ..pre });
        loop
            invariant
                self.wf(),
                old(self).keeps_listeners(*self),
                pre == old(self)@,
                pre.valid(),
                pre.tail() < u64::MAX,
                !pre.closed,
                pre.receivers.len() > 0,
                evicted <= pre.queue().len(),
                self@ == (Channel { head: pre.head + evicted, limiter: self@.limiter, ..pre }),
                ret == (if evicted > 0 {
                    Some(pre.queue()[evicted - 1])
                } else {
                    None
                }),
                forall|k: nat, post: L, outcome: Admission<L::Error>| #[trigger]
                    admits(
                        self@.limiter,
                        msg,
                        pre.queue().skip(evicted as int),
                        pre.overflow,
                        k,
                        post,
                        outcome,
                    ) ==> admits(
                        pre.limiter,
                        msg,
                        pre.queue(),
                        pre.overflow,
                        evicted + k,
                        post,
                        outcome,
                    ),
            decreases pre.queue().len() - evicted,
        {
            let ghost at = self@;
            let ghost held = pre.queue().skip(evicted as int);
            assert(at.queue() =~= held);
            assert(messages(self.queue@) =~= held);
            let attempt = self.capacity.try_add(&msg, Contents::new(&self.queue));
            assert(L::added(at.limiter, msg, held, self@.limiter, attempt));
            match attempt {
                Ok(unit) => {
                    assert(unit == ());
                    let ghost outcome = Admission::<L::Error>::Added;
                    let ghost before = *self;
                    assert(attempt == Ok::<(), L::Error>(()));
                    assert(admits(at.limiter, msg, held, pre.overflow, 0, self@.limiter, outcome));
                    let receiver_count: usize = self.receiver_count;
                    self.queue.push_back((msg, receiver_count));
                    proof {
                        self.sent = Ghost(self.sent@.push(msg));
                        lemma_behind_all(self.receivers@, pre.tail());
                        assert forall|k: int| 0 <= k < self.queue@.len() implies {
                            &&& (#[trigger] self.queue@[k]).0 == self.sent@[self.head_pos + k]
                            &&& self.queue@[k].1 == behind(
                                self.receivers@,
                                (self.head_pos + k) as nat,
                            )
                        } by {
                            if k < before.queue@.len() {
                                assert(self.queue@[k] == before.queue@[k]);
                            }
                        }
                        assert(self.queue.len() == self.queue@.len());
                    }

                    // Notify all awaiting receive operations.
                    self.recv_ops.notify(usize::MAX);

                    assert(broadcast_done(pre, msg, evicted, outcome, self@, Ok(ret)));
                    return Ok(ret);
                },
                Err(error) => {
                    let fatal = self.queue.len() == 0 || self.capacity.error_is_fatal(&error);
                    let ghost refused = self@.limiter;
                    if self.overflow && !fatal {
                        // Make room by popping a message.
                        if let Some(elt) = self.evict() {
                            proof {
                                let freed = self@.limiter;
                                assert(held.skip(1) =~= pre.queue().skip(evicted as int + 1));
                                assert forall|k: nat, post: L, outcome: Admission<L::Error>|
                                    admits(
                                        freed,
                                        msg,
                                        #[trigger] held.skip(1),
                                        pre.overflow,
                                        k,
                                        post,
                                        outcome,
                                    ) implies #[trigger] admits(
                                    pre.limiter,
                                    msg,
                                    pre.queue(),
                                    pre.overflow,
                                    evicted + 1 + k,
                                    post,
                                    outcome,
                                ) by {
                                    assert(L::added(at.limiter, msg, held, refused, Err(error)));
                                    assert(L::removed(refused, held[0], held.skip(1), freed));
                                    assert(admits(
                                        at.limiter,
                                        msg,
                                        held,
                                        pre.overflow,
                                        k + 1,
                                        post,
                                        outcome,
                                    ));
                                }
                                evicted = evicted + 1;
                            }
                            ret = Some(elt);
                            // retry the add
                            continue;
                        }
                    }
                    if fatal {
                        let ghost outcome = Admission::Rejected(error);
                        assert(admits(
                            at.limiter,
                            msg,
                            held,
                            pre.overflow,
                            0,
                            self@.limiter,
                            outcome,
                        ));
                        assert(broadcast_done(
                            pre,
                            msg,
                            evicted,
                            outcome,
                            self@,
                            Err(TrySendError::Rejected { msg, error }),
                        ));
                        return Err(TrySendError::Rejected { msg, error });
                    } else {
                        let ghost outcome = Admission::Full(error);
                        assert(admits(
                            at.limiter,
                            msg,
                            held,
                            pre.overflow,
                            0,
                            self@.limiter,
                            outcome,
                        ));
                        assert(broadcast_done(
                            pre,
                            msg,
                            evicted,
                            outcome,
                            self@,
                            Err(TrySendError::Full { msg, error }),
                        ));
                        return Err(TrySendError::Full { msg, error });
                    }
                },
            }
        }
    }
}

impl<T, L: AdjustableCapacityLimiter<T>> Inner<T, L> {
    /// Adjust the channel capacity.
    ///
    /// There are times when you need to change the channel's capacity after creating it. If
    /// needed, the oldest messages will be dropped to shrink the channel.
    pub fn adjust_capacity(&mut self, msg: L::Adjustment) -> (result: Result<(), L::Error>)
        requires
            old(self).wf(),
        ensures
            final(self).wf(),
            old(self).keeps_listeners(*final(self)),
            adjust_outcome(old(self)@, msg, final(self)@, result),
    {
        let ghost pre = self@;
        let mut current = msg;
        let ghost mut evicted: nat = 0;
        assert(pre.queue().skip(0) =~= pre.queue());
        assert(self@ =~= Channel { head: pre.head + evicted, limiter: self@.limiter, ..pre });
        loop
            invariant
                self.wf(),
                old(self).keeps_listeners(*self),
                pre == old(self)@,
                pre.valid(),
                evicted <= pre.queue().len(),
                self@ == (Channel { head: pre.head + evicted, limiter: self@.limiter, ..pre }),
                forall|k: nat, post: L, result: Result<(), L::Error>| #[trigger]
                    adjusts(
                        self@.limiter,
                        current,
                        pre.queue().skip(evicted as int),
                        k,
                        post,
                        result,
                    ) ==> adjusts(pre.limiter, msg, pre.queue(), evicted + k, post, result),
            decreases pre.queue().len() - evicted,
        {
            let ghost at = self@;
            let ghost held = pre.queue().skip(evicted as int);
            let ghost before = current;
            assert(at.queue() =~= held);
            assert(messages(self.queue@) =~= held);
            let attempt = self.capacity.try_adjust(&mut current, Contents::new(&self.queue));
            assert(L::adjusted(at.limiter, before, held, self@.limiter, current, attempt));
            let ghost refused = self@.limiter;
            match attempt {
                Ok(unit) => {
                    assert(adjusts(at.limiter, before, held, 0, self@.limiter, attempt));
                    return Ok(unit);
                },
                Err(e) => {
                    if !self.capacity.error_is_fatal(&e) {
                        if self.evict().is_some() {
                            proof {
                                let freed = self@.limiter;
                                assert(held.skip(1) =~= pre.queue().skip(evicted as int + 1));
                                assert forall|k: nat, post: L, result: Result<(), L::Error>|
                                    adjusts(
                                        freed,
                                        current,
                                        #[trigger] held.skip(1),
                                        k,
                                        post,
                                        result,
                                    ) implies #[trigger] adjusts(
                                    pre.limiter,
                                    msg,
                                    pre.queue(),
                                    evicted + 1 + k,
                                    post,
                                    result,
                                ) by {
                                    assert(L::removed(refused, held[0], held.skip(1), freed));
                                    assert(adjusts(
                                        at.limiter,
                                        before,
                                        held,
                                        k + 1,
                                        post,
                                        result,
                                    ));
                                }
                                evicted = evicted + 1;
                            }
                        } else {
                            // Failed to adjust and the channel is empty => fatal
                            assert(adjusts(at.limiter, before, held, 0, self@.limiter, attempt));
                            return Err(e);
                        }
                    } else {
                        assert(adjusts(at.limiter, before, held, 0, self@.limiter, attempt));
                        return Err(e);
                    }
                },
            }
        }
    }
}

impl<T, L> Inner<T, L> {
    /// A channel with one sender and one receiver, which is at position 0.
    pub fn new(capacity: L) -> (inner: Self)
        ensures
            inner.wf(),
            inner@ == Channel::<T, L>::created(capacity),
    {
        let inner = Inner {
            queue: VecDeque::new(),
            capacity,
            receiver_count: 1,
            inactive_receiver_count: 0,
            sender_count: 1,
            head_pos: 0,
            overflow: false,
            is_closed: false,
            send_ops: Ops::new(),
            recv_ops: Ops::new(),
            sent: Ghost(Seq::empty()),
            receivers: Ghost(Multiset::singleton(0)),
        };
        inner
    }

    /// Closes the channel and notifies all waiting operations.
    ///
    /// Returns `true` if this call has closed the channel and it was not closed already.
    pub fn close(&mut self) -> (closed: bool)
        requires
            old(self).consistent(),
        ensures
            final(self).wf(),
            old(self).keeps_listeners(*final(self)),
            final(self)@ == old(self)@.closing(),
            closed == !old(self)@.closed,
    {
        if self.is_closed {
            return false;
        }
        self.is_closed = true;
        // Notify all waiting senders and receivers.
        self.send_ops.notify(usize::MAX);
        self.recv_ops.notify(usize::MAX);

        true
    }

    /// Close the channel if there aren't any receivers present anymore
    fn close_channel(&mut self)
        requires
            old(self).consistent(),
            old(self)@.closed || old(self)@.senders > 0,
        ensures
            final(self).wf(),
            old(self).keeps_listeners(*final(self)),
            final(self)@ == old(self)@.closing_unattended(),
    {
        if self.receiver_count == 0 && self.inactive_receiver_count == 0 {
            self.close();
        }
    }

    /// If overflow mode is enabled on this channel.
    pub fn overflow(&self) -> (overflow: bool)
        ensures
            overflow == self@.overflow,
    {
        self.overflow
    }

    /// Set overflow mode on the channel.
    pub fn set_overflow(&mut self, overflow: bool)
        requires
            old(self).wf(),
        ensures
            final(self).wf(),
            old(self).keeps_listeners(*final(self)),
            final(self)@ == old(self)@.with_overflow(overflow),
    {
        self.overflow = overflow;
    }

    /// Returns `true` if the channel is closed.
    pub fn is_closed(&self) -> (closed: bool)
        ensures
            closed == self@.closed,
    {
        self.is_closed
    }

    /// Returns `true` if the channel is empty.
    pub fn is_empty(&self) -> (empty: bool)
        requires
            self.wf(),
        ensures
            empty == (self@.queue().len() == 0),
    {
        self.queue.len() == 0
    }

    /// Returns the number of messages in the channel.
    pub fn len(&self) -> (n: usize)
        requires
            self.wf(),
        ensures
            n == self@.queue().len(),
    {
        self.queue.len()
    }

    /// Returns the number of messages that have been sent on the channel so far.
    pub fn sent_count(&self) -> (n: u64)
        requires
            self.wf(),
        ensures
            n == self@.tail(),
    {
        self.head_pos + self.queue.len() as u64
    }

    /// Returns the number of active receivers.
    pub fn receiver_count(&self) -> (n: usize)
        requires
            self.wf(),
        ensures
            n == self@.receivers.len(),
    {
        self.receiver_count
    }

    /// Returns the number of inactive receivers.
    pub fn inactive_receiver_count(&self) -> (n: usize)
        ensures
            n == self@.inactive,
    {
        self.inactive_receiver_count
    }

    /// Returns the number of senders.
    pub fn sender_count(&self) -> (n: usize)
        ensures
            n == self@.senders,
    {
        self.sender_count
    }

    /// The limiter of the channel.
    pub fn limiter(&self) -> (limiter: &L)
        ensures
            *limiter == self@.limiter,
    {
        &self.capacity
    }

    /// One more sender.
    pub fn add_sender(&mut self)
        requires
            old(self).wf(),
            old(self)@.senders < usize::MAX,
        ensures
            final(self).wf(),
            old(self).keeps_listeners(*final(self)),
            final(self)@ == old(self)@.sender_joins(),
    {
        self.sender_count += 1;
    }

    /// One sender less; the last one closes the channel.
    pub fn remove_sender(&mut self)
        requires
            old(self).wf(),
            old(self)@.senders > 0,
        ensures
            final(self).wf(),
            old(self).keeps_listeners(*final(self)),
            final(self)@ == old(self)@.sender_leaves(),
    {
        self.sender_count -= 1;

        if self.sender_count == 0 {
            self.close();
        }
    }

    /// One more receiver. Returns its position, which is behind all messages sent so far.
    pub fn add_receiver(&mut self) -> (pos: u64)
        requires
            old(self).wf(),
            old(self)@.receivers.len() < usize::MAX,
        ensures
            final(self).wf(),
            old(self).keeps_listeners(*final(self)),
            final(self)@ == old(self)@.receiver_joins(),
            pos == old(self)@.tail(),
            final(self)@.receivers.contains(pos as nat),
    {
        let ghost pre = self@;
        self.receiver_count += 1;
        proof {
            self.receivers = Ghost(self.receivers@.insert(pre.tail()));
            assert forall|k: int| 0 <= k < self.queue@.len() implies (
            #[trigger] self.queue@[k]).1 == behind(self.receivers@, (self.head_pos + k) as nat) by {
                lemma_behind_insert(pre.receivers, pre.tail(), (self.head_pos + k) as nat);
            }
            lemma_behind_insert(pre.receivers, pre.tail(), pre.head);
            assert forall|p: nat|
                #[trigger] self.receivers@.contains(p) implies p <= pre.tail() by {
                assert(p == pre.tail() || pre.receivers.contains(p));
            }
        }
        self.head_pos + self.queue.len() as u64
    }

    /// One more receiver, made from an inactive one. Returns its position, which is behind all
    /// messages sent so far.
    pub fn activate_receiver(&mut self) -> (pos: u64)
        requires
            old(self).wf(),
            old(self)@.receivers.len() < usize::MAX,
        ensures
            final(self).wf(),
            old(self).keeps_listeners(*final(self)),
            final(self)@ == old(self)@.receiver_activates(),
            pos == old(self)@.tail(),
            final(self)@.receivers.contains(pos as nat),
    {
        let pos: u64 = self.add_receiver();

        if self.receiver_count == 1 {
            // Notify 1 awaiting senders that there is now a receiver. If there is still room in the
            // queue, the notified operation will notify another awaiting sender.
            self.send_ops.notify(1);
        }
        pos
    }

    /// One more inactive receiver.
    pub fn add_inactive(&mut self)
        requires
            old(self).wf(),
            old(self)@.inactive < usize::MAX,
        ensures
            final(self).wf(),
            old(self).keeps_listeners(*final(self)),
            final(self)@ == old(self)@.inactive_joins(),
    {
        self.inactive_receiver_count += 1;
    }

    /// One inactive receiver less. The channel closes if no receiver at all is left.
    pub fn remove_inactive(&mut self)
        requires
            old(self).wf(),
            old(self)@.inactive > 0,
        ensures
            final(self).wf(),
            old(self).keeps_listeners(*final(self)),
            final(self)@ == old(self)@.inactive_leaves(),
    {
        self.inactive_receiver_count -= 1;

        self.close_channel();
    }

    /// Starts to listen for room in the channel, for an active receiver, or for the channel to be
    /// closed.
    pub fn listen_send(&mut self) -> (listener: EventListener)
        requires
            old(self).wf(),
        ensures
            final(self).wf(),
            old(self).keeps_listeners(*final(self)),
            final(self)@ == old(self)@.send_listens(),
            final(self).send_heard_by(listener),
    {
        self.send_ops.listen()
    }

    /// Starts to listen for a message, or for the channel to be closed.
    pub fn listen_recv(&mut self) -> (listener: EventListener)
        requires
            old(self).wf(),
        ensures
            final(self).wf(),
            old(self).keeps_listeners(*final(self)),
            final(self)@ == old(self)@.recv_listens(),
            final(self).recv_heard_by(listener),
    {
        self.recv_ops.listen()
    }

    /// Wakes one waiting sender.
    pub fn notify_sender(&mut self)
        requires
            old(self).wf(),
        ensures
            final(self).wf(),
            old(self).keeps_listeners(*final(self)),
            final(self)@ == old(self)@.sender_woken(),
    {
        self.send_ops.notify(1);
    }
}

impl<T, L: CapacityLimiter<T>> Inner<T, L> {
    /// Returns `true` if the limiter holds the channel to be full.
    pub fn is_full(&self) -> (full: bool)
        requires
            self.wf(),
        ensures
            self@.limiter.full(self@.queue(), full),
    {
        assert(messages(self.queue@) =~= self@.queue());
        self.capacity.is_full(Contents::new(&self.queue))
    }

    /// Takes out the receiver at `pos`. It gives up all messages that are left for it, and the
    /// channel closes if no receiver at all is left.
    pub fn remove_receiver(&mut self, pos: u64)
        requires
            old(self).wf(),
            old(self)@.receivers.contains(pos as nat),
        ensures
            final(self).wf(),
            old(self).keeps_listeners(*final(self)),
            left(old(self)@, pos as nat, steps_to_tail(old(self)@, pos as nat), final(self)@),
    {
        let ghost pre = self@;
        let mut at: u64 = pos;
        // Remove ourself from each item's counter
        loop
            invariant
                self.wf(),
                old(self).keeps_listeners(*self),
                pre == old(self)@,
                self@.receivers.contains(at as nat),
                forall|post: Channel<T, L>| #[trigger]
                    left(self@, at as nat, steps_to_tail(self@, at as nat), post) ==> left(
                        pre,
                        pos as nat,
                        steps_to_tail(pre, pos as nat),
                        post,
                    ),
            ensures
                at == self@.tail(),
            decreases steps_to_tail(self@, at as nat),
        {
            let ghost before = self@;
            let ghost from = at as nat;
            proof {
                lemma_moved_len(before.receivers, from, before.next(from));
            }
            let done = match self.try_recv_at(&mut at) {
                Ok(_) => false,
                Err(TryRecvError::Overflowed(_)) => false,
                Err(TryRecvError::Closed) => true,
                Err(TryRecvError::Empty) => true,
            };
            if done {
                assert(self@.receivers =~= before.receivers);
                break;
            }
            assert forall|post: Channel<T, L>|
                #[trigger] left(
                    self@,
                    at as nat,
                    steps_to_tail(self@, at as nat),
                    post,
                ) implies left(
                pre,
                pos as nat,
                steps_to_tail(pre, pos as nat),
                post,
            ) by {
                assert(received(before, from, self@));
                assert(left(before, from, steps_to_tail(before, from), post));
            }
        }
        let ghost read = self@;
        proof {
            self.receivers = Ghost(self.receivers@.remove(at as nat));
            assert forall|k: int| 0 <= k < self.queue@.len() implies (
            #[trigger] self.queue@[k]).1 == behind(self.receivers@, (self.head_pos + k) as nat) by {
                lemma_behind_remove(read.receivers, at as nat, (self.head_pos + k) as nat);
            }
            lemma_behind_remove(read.receivers, at as nat, read.head);
            assert forall|p: nat|
                #[trigger] self.receivers@.contains(p) implies p <= read.tail() by {
                assert(read.receivers.contains(p));
            }
        }
        self.receiver_count -= 1;

        self.close_channel();
        assert(left(read, at as nat, 0, self@));
        assert(steps_to_tail(read, at as nat) == 0);
    }
}

impl<T> Inner<T, ElementCountLimiter> {
    /// Changes how many messages the channel may hold. If it holds more, the oldest ones are
    /// dropped.
    pub fn set_capacity(&mut self, new_cap: usize)
        requires
            old(self).wf(),
        ensures
            final(self).wf(),
            old(self).keeps_listeners(*final(self)),
            final(self)@ == old(self)@.with_capacity(new_cap),
    {
        let ghost pre = self@;
        let result = self.adjust_capacity(new_cap);
        proof {
            let evicted = choose|evicted: nat|
                {
                    &&& #[trigger] adjusts(
                        pre.limiter,
                        new_cap,
                        pre.queue(),
                        evicted,
                        self@.limiter,
                        result,
                    )
                    &&& self@ == Channel {
                        head: pre.head + evicted,
                        limiter: self@.limiter,
                        ..pre
                    }
                };
            lemma_count_adjusts(pre.limiter, new_cap, pre.queue(), evicted, self@.limiter, result);
        }
    }
}

} // verus!
