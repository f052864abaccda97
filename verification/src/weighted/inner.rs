//! The state that the handles of a weighted channel share.
use crate::cursors::{
    behind, lemma_behind_all, lemma_behind_insert, lemma_behind_monotone, lemma_behind_moved,
    lemma_behind_remove, lemma_behind_strict, lemma_behind_witness, lemma_moved_len, moved,
};
use crate::errors::{FullError, TryRecvError, TrySendError};
use crate::queue::queue_get_mut;
use crate::signal::Ops;
use crate::weighted::channel::{
    evictions, lemma_total_weight_push, lemma_total_weight_split, total_weight, WeightedChannel,
};
use crate::weighted::scale::{Scale, Weight};
use event_listener::EventListener;
use std::collections::VecDeque;
use vstd::multiset::Multiset;
use vstd::prelude::*;

verus! {

/// The queue of a weighted channel, and who takes part in it.
///
/// A handle goes only with the state it was made with: a state counts its own handles, and knows
/// nothing of others.
pub struct Inner<T, S: Scale<T>> {
    scale: S,
    /// The messages, each with the number of receivers that have not read it yet.
    queue: VecDeque<(T, usize)>,
    space: S::Weight,
    head_pos: u64,
    sender_count: usize,
    receiver_count: usize,
    overflow: bool,
    closed: bool,
    send_ops: Ops,
    recv_ops: Ops,
    /// All messages ever sent.
    sent: Ghost<Seq<T>>,
    /// The positions of the receivers.
    receivers: Ghost<Multiset<nat>>,
}

impl<T, S: Scale<T>> View for Inner<T, S> {
    type V = WeightedChannel<T, S>;

    closed spec fn view(&self) -> WeightedChannel<T, S> {
        WeightedChannel {
            scale: self.scale,
            sent: self.sent@,
            head: self.head_pos as nat,
            space: self.space.amount(),
            receivers: self.receivers@,
            senders: self.sender_count as nat,
            overflow: self.overflow,
            closed: self.closed,
            send_ops: self.send_ops@,
            recv_ops: self.recv_ops@,
        }
    }
}

impl<T, S: Scale<T>> Inner<T, S> {
    /// The queue is the part of the log from the head on, and its counts and those of the
    /// receivers are right.
    pub closed spec fn represents(self) -> bool {
        &&& self.receiver_count == self.receivers@.len()
        &&& self.queue@.len() == self.sent@.len() - self.head_pos
        &&& forall|i: int|
            0 <= i < self.queue@.len() ==> (#[trigger] self.queue@[i]).0 == self.sent@[self.head_pos
                + i] && self.queue@[i].1 == behind(self.receivers@, (self.head_pos + i) as nat)
    }

    /// The listener is notified where those are who wait to send.
    pub closed spec fn send_heard_by(self, listener: EventListener) -> bool {
        self.send_ops.heard_by(listener)
    }

    /// The listener is notified where those are who wait to receive.
    pub closed spec fn recv_heard_by(self, listener: EventListener) -> bool {
        self.recv_ops.heard_by(listener)
    }

    /// A send operation with this listener, if it has one, waits for this channel.
    pub open spec fn wakes_send(self, listener: Option<EventListener>) -> bool {
        listener matches Some(l) ==> self.send_heard_by(l)
    }

    /// A receive operation with this listener, if it has one, waits for this channel.
    pub open spec fn wakes_recv(self, listener: Option<EventListener>) -> bool {
        listener matches Some(l) ==> self.recv_heard_by(l)
    }

    /// Whoever waits for this channel waits for `post` as well.
    pub open spec fn keeps_listeners(self, post: Self) -> bool {
        &&& forall|l: EventListener|
            #![trigger self.send_heard_by(l)]
            #![trigger post.send_heard_by(l)]
            self.send_heard_by(l) ==> post.send_heard_by(l)
        &&& forall|l: EventListener|
            #![trigger self.recv_heard_by(l)]
            #![trigger post.recv_heard_by(l)]
            self.recv_heard_by(l) ==> post.recv_heard_by(l)
    }

    /// What holds between any two operations.
    pub open spec fn wf(self) -> bool {
        self.represents() && self@.valid()
    }

    /// A channel with one sender and one receiver, which is at position 0.
    pub fn new(scale: S, capacity: S::Weight) -> (inner: Self)
        ensures
            inner.wf(),
            inner@ == WeightedChannel::<T, S>::created(scale, capacity.amount()),
    {
        proof {
            capacity.within_limit();
        }
        let inner = Inner {
            scale,
            queue: VecDeque::new(),
            space: capacity,
            head_pos: 0,
            sender_count: 1,
            receiver_count: 1,
            overflow: false,
            closed: false,
            send_ops: Ops::new(),
            recv_ops: Ops::new(),
            sent: Ghost(Seq::empty()),
            receivers: Ghost(Multiset::singleton(0)),
        };
        assert(inner@.queue().len() == 0);
        inner
    }

    /// One more sender.
    pub fn new_sender(&mut self)
        requires
            old(self).wf(),
            old(self)@.senders < usize::MAX,
        ensures
            final(self).wf(),
            old(self).keeps_listeners(*final(self)),
            final(self)@ == old(self)@.sender_joins(),
    {
        self.sender_count += 1;
    }

    /// One more receiver. Returns its position, which is behind all messages sent so far.
    pub fn new_receiver(&mut self) -> (pos: u64)
        requires
            old(self).wf(),
            old(self)@.receivers.len() < usize::MAX,
        ensures
            final(self).wf(),
            old(self).keeps_listeners(*final(self)),
            final(self)@ == old(self)@.receiver_joins(),
            pos == old(self)@.tail(),
            final(self)@.receivers.contains(pos as nat),
    {
        let ghost pre = self@;
        self.receiver_count += 1;
        proof {
            self.receivers = Ghost(self.receivers@.insert(pre.tail()));
            assert forall|k: int| 0 <= k < self.queue@.len() implies (
            #[trigger] self.queue@[k]).1 == behind(self.receivers@, (self.head_pos + k) as nat) by {
                lemma_behind_insert(pre.receivers, pre.tail(), (self.head_pos + k) as nat);
            }
            lemma_behind_insert(pre.receivers, pre.tail(), pre.head);
            assert forall|p: nat|
                #[trigger] self.receivers@.contains(p) implies p <= pre.tail() by {
                assert(p == pre.tail() || pre.receivers.contains(p));
            }
        }
        self.head_pos + self.queue.len() as u64
    }

    /// Removes the oldest message, whether or not everybody has read it, and frees its space.
    /// Returns whether there was one.
    fn evict(&mut self) -> (evicted: bool)
        requires
            old(self).wf(),
        ensures
            final(self).wf(),
            old(self).keeps_listeners(*final(self)),
            evicted == (old(self)@.queue().len() > 0),
            final(self)@ == (if evicted {
                WeightedChannel {
                    head: old(self)@.head + 1,
                    space: old(self)@.space + old(self)@.scale.weight(&old(self)@.queue()[0]),
                    ..old(self)@
                }
            } else {
                old(self)@
            }),
    {
        let ghost pre = *self;
        match self.queue.pop_front() {
            Some((elt, _)) => {
                let weight = self.scale.weigh(&elt);
                self.head_pos += 1;
                proof {
                    assert(elt == pre.queue@[0].0);
                    assert(pre@.queue().skip(1) =~= self@.queue());
                    assert forall|k: int| 0 <= k < self.queue@.len() implies {
                        &&& (#[trigger] self.queue@[k]).0 == self.sent@[self.head_pos + k]
                        &&& self.queue@[k].1 == behind(self.receivers@, (self.head_pos + k) as nat)
                    } by {
                        assert(self.queue@[k] == pre.queue@[k + 1]);
                    }
                    lemma_behind_monotone(
                        self.receivers@,
                        pre.head_pos as nat,
                        self.head_pos as nat,
                    );
                }
                self.space.grow(weight);
                true
            },
            None => false,
        }
    }

    /// Attempts to send a message.
    pub fn try_send(&mut self, msg: T) -> (result: Result<(), TrySendError<T>>)
        requires
            old(self).wf(),
            old(self)@.tail() < u64::MAX,
        ensures
            final(self).wf(),
            old(self).keeps_listeners(*final(self)),
            final(self)@ == old(self)@.after_send(msg),
            result == old(self)@.send_result(msg),
    {
        if self.closed {
            return Err(TrySendError::Closed(msg));
        }
        let ghost pre = self@;
        let ghost need = pre.scale.weight(&msg);
        let ghost mut n: nat = 0;
        let weight = self.scale.weigh(&msg);
        proof {
            assert(pre.queue().skip(0) =~= pre.queue());
            assert(total_weight(pre.scale, pre.queue().take(0)) == 0);
            assert(self@ =~= pre.without_oldest(0));
        }
        while weight.exceeds(&self.space)
            invariant
                self.wf(),
                old(self).keeps_listeners(*self),
                pre == old(self)@,
                pre.valid(),
                !pre.closed,
                need == pre.scale.weight(&msg),
                weight.amount() == need,
                n <= pre.queue().len(),
                pre.overflow || n == 0,
                self@ == pre.without_oldest(n),
                evictions(pre.scale, pre.queue(), pre.space, need) == n + evictions(
                    pre.scale,
                    pre.queue().skip(n as int),
                    self@.space,
                    need,
                ),
            decreases pre.queue().len() - n,
        {
            let ghost held = pre.queue().skip(n as int);
            assert(self@.queue() =~= held);
            if self.overflow {
                if self.evict() {
                    proof {
                        assert(held.skip(1) =~= pre.queue().skip(n as int + 1));
                        assert(pre.queue().take(n as int + 1) =~= pre.queue().take(n as int).push(
                            held[0],
                        ));
                        lemma_total_weight_push(pre.scale, pre.queue().take(n as int), held[0]);
                        n = n + 1;
                    }
                    continue;
                }
            }
            return Err(TrySendError::Full { msg, error: FullError });
        }
        let ghost roomy = *self;
        assert(evictions(pre.scale, pre.queue().skip(n as int), self@.space, need) == 0);
        self.space.shrink(weight);
        self.queue.push_back((msg, self.receiver_count));
        proof {
            self.sent = Ghost(self.sent@.push(msg));
            lemma_behind_all(self.receivers@, pre.tail());
            assert forall|k: int| 0 <= k < self.queue@.len() implies {
                &&& (#[trigger] self.queue@[k]).0 == self.sent@[self.head_pos + k]
                &&& self.queue@[k].1 == behind(self.receivers@, (self.head_pos + k) as nat)
            } by {
                if k < roomy.queue@.len() {
                    assert(self.queue@[k] == roomy.queue@[k]);
                }
            }
            assert(self.queue.len() == self.queue@.len());
            assert(self@.queue() =~= roomy@.queue().push(msg));
            lemma_total_weight_push(pre.scale, roomy@.queue(), msg);
        }
        self.send_ops.notify(1);
        self.recv_ops.notify(usize::MAX);
        Ok(())
    }

    /// Try receiving at the given position, returning either the element or a reference to it.
    pub fn recv_at(&mut self, pos: &mut u64) -> (result: Result<Result<T, &T>, TryRecvError>)
        requires
            old(self).wf(),
            old(self)@.receivers.contains(*old(pos) as nat),
        ensures
            final(self).wf(),
            old(self).keeps_listeners(*final(self)),
            final(self)@ == old(self)@.after_read(*old(pos) as nat),
            *final(pos) == old(self)@.next(*old(pos) as nat),
            match result {
                Ok(Ok(m)) => {
                    &&& old(self)@.releases(*old(pos) as nat)
                    &&& old(self)@.reads(*old(pos) as nat) == Ok::<T, TryRecvError>(m)
                },
                Ok(Err(m)) => {
                    &&& !old(self)@.releases(*old(pos) as nat)
                    &&& old(self)@.reads(*old(pos) as nat) == Ok::<T, TryRecvError>(*m)
                },
                Err(e) => old(self)@.reads(*old(pos) as nat) == Err::<T, _>(e),
            },
    {
        let ghost pre = self@;
        let ghost from = *pos as nat;
        let ghost to = pre.next(from);
        proof {
            lemma_moved_len(self.receivers@, from, to);
            assert(from <= pre.tail());
        }
        let i: usize = match pos.checked_sub(self.head_pos) {
            Some(i) => i as usize,
            None => {
                let count: u64 = self.head_pos - *pos;
                *pos = self.head_pos;
                proof {
                    self.receivers = Ghost(moved(self.receivers@, from, to));
                    assert forall|i: int| 0 <= i < self.queue@.len() implies (
                    #[trigger] self.queue@[i]).1 == behind(
                        self.receivers@,
                        (self.head_pos + i) as nat,
                    ) by {
                        lemma_behind_moved(pre.receivers, from, to, (self.head_pos + i) as nat);
                    }
                    lemma_behind_moved(pre.receivers, from, to, self.head_pos as nat);
                }
                return Err(TryRecvError::Overflowed(count));
            },
        };
        assert(i == from - pre.head);

        let last_waiter: bool;
        let ghost queue_pre = self.queue@;
        if let Some(entry) = queue_get_mut(&mut self.queue, i) {
            proof {
                lemma_behind_remove(pre.receivers, from, from);
            }
            *pos += 1;
            entry.1 -= 1;
            last_waiter = entry.1 == 0;
        } else {
            assert(i == self.queue@.len());
            assert(self.receivers@ =~= moved(self.receivers@, from, to));
            if self.closed {
                return Err(TryRecvError::Closed);
            } else {
                return Err(TryRecvError::Empty);
            }
        }
        proof {
            self.receivers = Ghost(moved(self.receivers@, from, to));
            assert forall|k: int| 0 <= k < self.queue@.len() implies {
                &&& (#[trigger] self.queue@[k]).0 == self.sent@[self.head_pos + k]
                &&& self.queue@[k].1 == behind(self.receivers@, (self.head_pos + k) as nat)
            } by {
                lemma_behind_moved(pre.receivers, from, to, (self.head_pos + k) as nat);
                assert(queue_pre[k].0 == self.sent@[self.head_pos + k]);
            }
            // Only the first element of the queue can be left without waiters.
            if i > 0 {
                lemma_behind_strict(pre.receivers, pre.head, from, from);
            }
            lemma_behind_moved(pre.receivers, from, to, pre.head);
        }

        if last_waiter {
            assert(i == 0);
            let ghost before = *self;

            // Remove the element from the queue, adjust space, and notify senders
            let elt = self.queue.pop_front().unwrap().0;
            let weight = self.scale.weigh(&elt);
            self.head_pos += 1;
            proof {
                assert(elt == pre.queue()[0]);
                assert(pre.queue().skip(1) =~= self@.queue());
            }
            self.space.grow(weight);
            self.send_ops.notify(1);
            proof {
                assert forall|k: int| 0 <= k < self.queue@.len() implies {
                    &&& (#[trigger] self.queue@[k]).0 == self.sent@[self.head_pos + k]
                    &&& self.queue@[k].1 == behind(self.receivers@, (self.head_pos + k) as nat)
                } by {
                    assert(self.queue@[k] == before.queue@[k + 1]);
                }
                lemma_behind_witness(self.receivers@, self.head_pos as nat);
            }
            Ok(Ok(elt))
        } else {
            Ok(Err(&self.queue[i].0))
        }
    }

    /// Closes the channel if it is open and there is no sender or no receiver.
    fn auto_close(&mut self)
        requires
            old(self).represents(),
            old(self)@.coherent(),
        ensures
            final(self).wf(),
            old(self).keeps_listeners(*final(self)),
            final(self)@ == old(self)@.closing_unattended(),
    {
        if !self.closed && (self.sender_count == 0 || self.receiver_count == 0) {
            self.closed = true;
            self.send_ops.notify(usize::MAX);
            self.recv_ops.notify(usize::MAX);
        }
    }

    /// Closes the channel.
    pub fn close(&mut self)
        requires
            old(self).wf(),
        ensures
            final(self).wf(),
            old(self).keeps_listeners(*final(self)),
            final(self)@ == old(self)@.closing(),
    {
        self.closed = true;
        self.send_ops.notify(usize::MAX);
        self.recv_ops.notify(usize::MAX);
    }

    /// One sender less; the last one closes the channel.
    pub fn remove_sender(&mut self)
        requires
            old(self).wf(),
            old(self)@.senders > 0,
        ensures
            final(self).wf(),
            old(self).keeps_listeners(*final(self)),
            final(self)@ == old(self)@.sender_leaves(),
    {
        self.sender_count -= 1;
        self.auto_close();
    }

    /// Takes out the receiver at `pos`. It gives up all messages that are left for it. The last
    /// receiver closes the channel.
    pub fn remove_receiver(&mut self, pos: u64)
        requires
            old(self).wf(),
            old(self)@.receivers.contains(pos as nat),
        ensures
            final(self).wf(),
            old(self).keeps_listeners(*final(self)),
            final(self)@ == old(self)@.receiver_leaves(pos as nat),
    {
        let mut at: u64 = pos;
        loop
            invariant
                self.wf(),
                old(self).keeps_listeners(*self),
                self@.receivers.contains(at as nat),
                self@.receiver_leaves(at as nat) == old(self)@.receiver_leaves(pos as nat),
            ensures
                at == self@.tail(),
            decreases self@.steps_to_tail(at as nat),
        {
            let ghost before = self@;
            let ghost from = at as nat;
            proof {
                lemma_moved_len(before.receivers, from, before.next(from));
            }
            let done = match self.recv_at(&mut at) {
                Ok(_) => false,
                Err(TryRecvError::Overflowed(_)) => false,
                Err(TryRecvError::Closed) => true,
                Err(TryRecvError::Empty) => true,
            };
            if done {
                assert(self@ =~= before);
                break;
            }
        }
        let ghost read = self@;
        proof {
            self.receivers = Ghost(self.receivers@.remove(at as nat));
            assert forall|k: int| 0 <= k < self.queue@.len() implies (
            #[trigger] self.queue@[k]).1 == behind(self.receivers@, (self.head_pos + k) as nat) by {
                lemma_behind_remove(read.receivers, at as nat, (self.head_pos + k) as nat);
            }
            lemma_behind_remove(read.receivers, at as nat, read.head);
            assert forall|p: nat|
                #[trigger] self.receivers@.contains(p) implies p <= read.tail() by {
                assert(read.receivers.contains(p));
            }
        }
        self.receiver_count -= 1;
        self.auto_close();
    }

    /// If overflow mode is enabled on this channel.
    pub fn overflow(&self) -> (overflow: bool)
        ensures
            overflow == self@.overflow,
    {
        self.overflow
    }

    /// Set overflow mode on the channel.
    pub fn set_overflow(&mut self, overflow: bool)
        requires
            old(self).wf(),
        ensures
            final(self).wf(),
            old(self).keeps_listeners(*final(self)),
            final(self)@ == old(self)@.with_overflow(overflow),
    {
        self.overflow = overflow;
    }

    /// Return the current amount of space in the channel.
    pub fn space(&self) -> (space: S::Weight)
        ensures
            space.amount() == self@.space,
    {
        self.space.duplicate()
    }

    /// Whether so much space can be added to the channel: all of its space, free and in use, has
    /// to be an amount that there is.
    pub fn can_add_space(&self, weight: &S::Weight) -> (answer: bool)
        requires
            self.wf(),
        ensures
            answer == (self@.space + self@.load() + weight.amount() <= S::Weight::limit()),
    {
        let ghost held = self@.queue();
        let mut total = self.space.duplicate();
        let mut i: usize = 0;
        assert(held.take(0) =~= Seq::<T>::empty());
        while i < self.queue.len()
            invariant
                self.wf(),
                held == self@.queue(),
                i <= self.queue@.len(),
                total.amount() == self@.space + total_weight(self@.scale, held.take(i as int)),
            decreases self.queue@.len() - i,
        {
            proof {
                assert(held.take(i as int + 1) =~= held.take(i as int).push(held[i as int]));
                lemma_total_weight_push(self@.scale, held.take(i as int), held[i as int]);
                lemma_total_weight_split(self@.scale, held, i as int + 1);
            }
            total.grow(self.scale.weigh(&self.queue[i].0));
            i += 1;
        }
        assert(held.take(i as int) =~= held);
        total.has_room_for(weight)
    }

    /// Add space to the channel.
    pub fn add_space(&mut self, weight: S::Weight)
        requires
            old(self).wf(),
            old(self)@.space + old(self)@.load() + weight.amount() <= S::Weight::limit(),
        ensures
            final(self).wf(),
            old(self).keeps_listeners(*final(self)),
            final(self)@ == old(self)@.with_space(old(self)@.space + weight.amount()),
    {
        self.space.grow(weight);
        assert(self@.queue() =~= old(self)@.queue());
    }

    /// Remove space from the channel, unless there is less of it.
    pub fn remove_space(&mut self, weight: S::Weight) -> (removed: bool)
        requires
            old(self).wf(),
        ensures
            final(self).wf(),
            old(self).keeps_listeners(*final(self)),
            removed == (weight.amount() <= old(self)@.space),
            final(self)@ == (if removed {
                old(self)@.with_space((old(self)@.space - weight.amount()) as nat)
            } else {
                old(self)@
            }),
    {
        if weight.exceeds(&self.space) {
            return false;
        }
        self.space.shrink(weight);
        assert(self@.queue() =~= old(self)@.queue());
        true
    }

    /// Starts to listen for space in the channel, or for it to be closed.
    pub fn listen_send(&mut self) -> (listener: EventListener)
        requires
            old(self).wf(),
        ensures
            final(self).wf(),
            old(self).keeps_listeners(*final(self)),
            final(self)@ == old(self)@.send_listens(),
            final(self).send_heard_by(listener),
    {
        self.send_ops.listen()
    }

    /// Starts to listen for a message, or for the channel to be closed.
    pub fn listen_recv(&mut self) -> (listener: EventListener)
        requires
            old(self).wf(),
        ensures
            final(self).wf(),
            old(self).keeps_listeners(*final(self)),
            final(self)@ == old(self)@.recv_listens(),
            final(self).recv_heard_by(listener),
    {
        self.recv_ops.listen()
    }

    /// Returns the number of messages that have been sent on the channel so far.
    pub fn sent_count(&self) -> (n: u64)
        requires
            self.wf(),
        ensures
            n == self@.tail(),
    {
        self.head_pos + self.queue.len() as u64
    }

    /// Returns the number of receivers.
    pub fn receiver_count(&self) -> (n: usize)
        requires
            self.wf(),
        ensures
            n == self@.receivers.len(),
    {
        self.receiver_count
    }

    /// Returns the number of senders.
    pub fn sender_count(&self) -> (n: usize)
        ensures
            n == self@.senders,
    {
        self.sender_count
    }
}

} // verus!
