//! The mathematical model of a weighted channel, and what each operation does to it.
//!
//! As with any channel, there is a log of all messages ever sent, of which the messages from the
//! head on are still held, and each receiver is a position in that log. What is held takes up
//! space according to its weight.
use crate::cursors::{behind, moved};
use crate::errors::{FullError, TryRecvError, TrySendError};
use crate::signal::Signal;
use crate::weighted::scale::{Scale, Weight};
use vstd::multiset::Multiset;
use vstd::prelude::*;

verus! {

/// How much all the given messages weigh together.
pub open spec fn total_weight<T, S: Scale<T>>(scale: S, items: Seq<T>) -> nat
    decreases items.len(),
{
    if items.len() == 0 {
        0
    } else {
        scale.weight(&items[0]) + total_weight(scale, items.skip(1))
    }
}

/// How many of the oldest messages have to go until `need` fits into the space; all of them where
/// even that is not enough.
pub open spec fn evictions<T, S: Scale<T>>(
    scale: S,
    items: Seq<T>,
    space: nat,
    need: nat,
) -> nat
    decreases items.len(),
{
    if need <= space || items.len() == 0 {
        0
    } else {
        1 + evictions(scale, items.skip(1), space + scale.weight(&items[0]), need)
    }
}

/// The state of a weighted channel.
#[verifier::ext_equal]
pub struct WeightedChannel<T, S> {
    /// What weighs the messages.
    pub scale: S,
    /// All messages ever sent, in the order in which they were sent.
    pub sent: Seq<T>,
    /// The number of the oldest message that the channel still holds.
    pub head: nat,
    /// The space that is left.
    pub space: nat,
    /// The positions of the receivers.
    pub receivers: Multiset<nat>,
    /// The number of senders.
    pub senders: nat,
    /// Whether overflow mode is enabled.
    pub overflow: bool,
    /// Whether the channel is closed.
    pub closed: bool,
    /// What has been asked of the event that waiting send operations listen to.
    pub send_ops: Seq<Signal>,
    /// What has been asked of the event that waiting receive operations listen to.
    pub recv_ops: Seq<Signal>,
}

impl<T, S: Scale<T>> WeightedChannel<T, S> {
    /// A new channel, with one sender and one receiver.
    pub open spec fn created(scale: S, capacity: nat) -> Self {
        WeightedChannel {
            scale,
            sent: Seq::empty(),
            head: 0,
            space: capacity,
            receivers: Multiset::singleton(0),
            senders: 1,
            overflow: false,
            closed: false,
            send_ops: Seq::empty(),
            recv_ops: Seq::empty(),
        }
    }

    /// The number that the next message will get.
    pub open spec fn tail(self) -> nat {
        self.sent.len()
    }

    /// The messages that the channel holds, oldest first.
    pub open spec fn queue(self) -> Seq<T> {
        self.sent.skip(self.head as int)
    }

    /// How many receivers have not read the message with number `pos` yet.
    pub open spec fn waiting(self, pos: nat) -> nat {
        behind(self.receivers, pos)
    }

    /// How much the messages that the channel holds weigh.
    pub open spec fn load(self) -> nat {
        total_weight(self.scale, self.queue())
    }

    /// The log and the receivers fit together, and what is free and what is held can be told as
    /// one weight. The counts fit the machine.
    pub open spec fn coherent(self) -> bool {
        &&& self.head <= self.tail() <= u64::MAX
        &&& self.queue().len() <= usize::MAX
        &&& forall|p: nat| #[trigger] self.receivers.contains(p) ==> p <= self.tail()
        &&& self.head < self.tail() ==> self.waiting(self.head) > 0
        &&& self.receivers.len() <= usize::MAX
        &&& self.senders <= usize::MAX
        &&& self.space + self.load() <= S::Weight::limit()
    }

    /// A channel that nobody can send to, or nobody can receive from any more, is closed.
    pub open spec fn attended(self) -> bool {
        self.closed || (self.senders > 0 && self.receivers.len() > 0)
    }

    /// What holds of a channel between any two operations.
    pub open spec fn valid(self) -> bool {
        self.coherent() && self.attended()
    }

    /// What a receiver at `pos` gets.
    pub open spec fn reads(self, pos: nat) -> Result<T, TryRecvError> {
        if pos < self.head {
            Err(TryRecvError::Overflowed((self.head - pos) as u64))
        } else if pos < self.tail() {
            Ok(self.sent[pos as int])
        } else if self.closed {
            Err(TryRecvError::Closed)
        } else {
            Err(TryRecvError::Empty)
        }
    }

    /// Where a receiver at `pos` is after an attempt to receive.
    pub open spec fn next(self, pos: nat) -> nat {
        if pos < self.head {
            self.head
        } else if pos < self.tail() {
            pos + 1
        } else {
            pos
        }
    }

    /// Whether a receiver at `pos` is the last one to read the oldest message held.
    pub open spec fn releases(self, pos: nat) -> bool {
        pos == self.head < self.tail() && self.waiting(pos) == 1
    }

    /// The channel without its `n` oldest messages, whose space is free again.
    pub open spec fn without_oldest(self, n: nat) -> Self {
        WeightedChannel {
            head: self.head + n,
            space: self.space + total_weight(self.scale, self.queue().take(n as int)),
            ..self
        }
    }

    /// What an attempt to receive at `pos` makes of the channel. The receiver moves on. If it was
    /// the last one to read the oldest message, that message leaves the channel, its space is
    /// free again, and one waiting sender is woken.
    pub open spec fn after_read(self, pos: nat) -> Self {
        let receivers = moved(self.receivers, pos, self.next(pos));
        if self.releases(pos) {
            WeightedChannel {
                head: self.head + 1,
                space: self.space + self.scale.weight(&self.queue()[0]),
                receivers,
                send_ops: self.send_ops.push(Signal::Notify(1)),
                ..self
            }
        } else {
            WeightedChannel { receivers, ..self }
        }
    }

    /// How many of the oldest messages a message makes go.
    pub open spec fn evicts(self, msg: T) -> nat {
        if self.overflow {
            evictions(self.scale, self.queue(), self.space, self.scale.weight(&msg))
        } else {
            0
        }
    }

    /// The channel once room has been made for a message as far as possible.
    pub open spec fn making_room(self, msg: T) -> Self {
        self.without_oldest(self.evicts(msg))
    }

    /// What an attempt to send answers: the channel takes the message if it is open and there is
    /// room, or can be made, and hands it back otherwise.
    pub open spec fn send_result(self, msg: T) -> Result<(), TrySendError<T>> {
        if self.closed {
            Err(TrySendError::Closed(msg))
        } else if self.scale.weight(&msg) <= self.making_room(msg).space {
            Ok(())
        } else {
            Err(TrySendError::Full { msg, error: FullError })
        }
    }

    /// What an attempt to send makes of the channel. A message that is taken wakes one waiting
    /// sender and all waiting receivers.
    pub open spec fn after_send(self, msg: T) -> Self {
        match self.send_result(msg) {
            Ok(_) => WeightedChannel {
                sent: self.sent.push(msg),
                space: (self.making_room(msg).space - self.scale.weight(&msg)) as nat,
                send_ops: self.send_ops.push(Signal::Notify(1)),
                recv_ops: self.recv_ops.push(Signal::Notify(usize::MAX)),
                ..self.making_room(msg)
            },
            Err(TrySendError::Closed(_)) => self,
            Err(_) => self.making_room(msg),
        }
    }

    /// Closes the channel and wakes everybody.
    pub open spec fn closing(self) -> Self {
        WeightedChannel {
            closed: true,
            send_ops: self.send_ops.push(Signal::Notify(usize::MAX)),
            recv_ops: self.recv_ops.push(Signal::Notify(usize::MAX)),
            ..self
        }
    }

    /// Closes the channel if it is open and there is no sender or no receiver.
    pub open spec fn closing_unattended(self) -> Self {
        if !self.closed && (self.senders == 0 || self.receivers.len() == 0) {
            self.closing()
        } else {
            self
        }
    }

    /// One more sender.
    pub open spec fn sender_joins(self) -> Self {
        WeightedChannel { senders: self.senders + 1, ..self }
    }

    /// One sender less; the last one closes the channel.
    pub open spec fn sender_leaves(self) -> Self {
        WeightedChannel { senders: (self.senders - 1) as nat, ..self }.closing_unattended()
    }

    /// One more receiver, which will only see messages that are yet to be sent.
    pub open spec fn receiver_joins(self) -> Self {
        WeightedChannel { receivers: self.receivers.insert(self.tail()), ..self }
    }

    /// How many attempts it takes a receiver at `pos` to get to the end of the log.
    pub open spec fn steps_to_tail(self, pos: nat) -> nat {
        if pos < self.head {
            (1 + self.tail() - self.head) as nat
        } else {
            (self.tail() - pos) as nat
        }
    }

    /// What a receiver at `pos` makes of the channel when it reads `steps` times and then goes.
    /// The last receiver closes the channel.
    pub open spec fn reading_out(self, pos: nat, steps: nat) -> Self
        decreases steps,
    {
        if steps == 0 {
            WeightedChannel {
                receivers: self.receivers.remove(pos),
                ..self
            }.closing_unattended()
        } else {
            self.after_read(pos).reading_out(self.next(pos), (steps - 1) as nat)
        }
    }

    /// One receiver less, the one at `pos`: it gives up whatever is left for it.
    pub open spec fn receiver_leaves(self, pos: nat) -> Self {
        self.reading_out(pos, self.steps_to_tail(pos))
    }

    /// Sets overflow mode.
    pub open spec fn with_overflow(self, overflow: bool) -> Self {
        WeightedChannel { overflow, ..self }
    }

    /// Sets the space that is left.
    pub open spec fn with_space(self, space: nat) -> Self {
        WeightedChannel { space, ..self }
    }

    /// A send operation starts to listen.
    pub open spec fn send_listens(self) -> Self {
        WeightedChannel { send_ops: self.send_ops.push(Signal::Listen), ..self }
    }

    /// A receive operation starts to listen.
    pub open spec fn recv_listens(self) -> Self {
        WeightedChannel { recv_ops: self.recv_ops.push(Signal::Listen), ..self }
    }
}

/// A message at the end adds its weight.
pub proof fn lemma_total_weight_push<T, S: Scale<T>>(scale: S, items: Seq<T>, item: T)
    ensures
        total_weight(scale, items.push(item)) == total_weight(scale, items) + scale.weight(&item),
    decreases items.len(),
{
    if items.len() == 0 {
        assert(items.push(item).skip(1) =~= items);
    } else {
        assert(items.push(item).skip(1) =~= items.skip(1).push(item));
        lemma_total_weight_push(scale, items.skip(1), item);
    }
}

/// The weight of the whole is that of its two parts.
pub proof fn lemma_total_weight_split<T, S: Scale<T>>(scale: S, items: Seq<T>, n: int)
    requires
        0 <= n <= items.len(),
    ensures
        total_weight(scale, items) == total_weight(scale, items.take(n)) + total_weight(
            scale,
            items.skip(n),
        ),
    decreases n,
{
    if n == 0 {
        assert(items.skip(0) =~= items);
    } else {
        assert(items.take(n).skip(1) =~= items.skip(1).take(n - 1));
        assert(items.skip(n) =~= items.skip(1).skip(n - 1));
        lemma_total_weight_split(scale, items.skip(1), n - 1);
    }
}

/// No more messages go than there are.
pub proof fn lemma_evictions_at_most<T, S: Scale<T>>(
    scale: S,
    items: Seq<T>,
    space: nat,
    need: nat,
)
    ensures
        evictions(scale, items, space, need) <= items.len(),
    decreases items.len(),
{
    if need > space && items.len() > 0 {
        lemma_evictions_at_most(scale, items.skip(1), space + scale.weight(&items[0]), need);
    }
}

} // verus!
