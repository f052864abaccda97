//! The mathematical model of a channel, and what each operation does to it.
//!
//! A channel is a log of all messages ever sent, which only grows, with a head that only moves
//! forward: the messages from the head on are the ones still held. Each active receiver is a
//! position in that log.
use crate::cursors::{behind, moved};
use crate::errors::{TryRecvError, TrySendError};
use crate::limiter::{
    adjusts, admits, AdjustableCapacityLimiter, Admission, CapacityLimiter, ElementCountLimiter,
};
use crate::signal::Signal;
use vstd::multiset::Multiset;
use vstd::prelude::*;

verus! {

/// The state of a channel.
#[verifier::ext_equal]
pub struct Channel<T, L> {
    /// All messages ever sent, in the order in which they were sent.
    pub sent: Seq<T>,
    /// The number of the oldest message that the channel still holds.
    pub head: nat,
    /// The limiter.
    pub limiter: L,
    /// The positions of the active receivers.
    pub receivers: Multiset<nat>,
    /// The number of inactive receivers.
    pub inactive: nat,
    /// The number of senders.
    pub senders: nat,
    /// Whether overflow mode is enabled.
    pub overflow: bool,
    /// Whether the channel is closed.
    pub closed: bool,
    /// What has been asked of the event that waiting send operations listen to.
    pub send_ops: Seq<Signal>,
    /// What has been asked of the event that waiting receive operations listen to.
    pub recv_ops: Seq<Signal>,
}

impl<T, L> Channel<T, L> {
    /// A new channel, with one sender and one receiver.
    pub open spec fn created(limiter: L) -> Self {
        Channel {
            sent: Seq::empty(),
            head: 0,
            limiter,
            receivers: Multiset::singleton(0),
            inactive: 0,
            senders: 1,
            overflow: false,
            closed: false,
            send_ops: Seq::empty(),
            recv_ops: Seq::empty(),
        }
    }

    /// The number that the next message will get.
    pub open spec fn tail(self) -> nat {
        self.sent.len()
    }

    /// The messages that the channel holds, oldest first.
    pub open spec fn queue(self) -> Seq<T> {
        self.sent.skip(self.head as int)
    }

    /// How many receivers have not read the message with number `pos` yet.
    pub open spec fn waiting(self, pos: nat) -> nat {
        behind(self.receivers, pos)
    }

    /// The log and the receivers fit together: the head and all receivers are within the log, and
    /// somebody still has to read the oldest message held. The counts fit the machine.
    pub open spec fn coherent(self) -> bool {
        &&& self.head <= self.tail() <= u64::MAX
        &&& self.queue().len() <= usize::MAX
        &&& forall|p: nat| #[trigger] self.receivers.contains(p) ==> p <= self.tail()
        &&& self.head < self.tail() ==> self.waiting(self.head) > 0
        &&& self.receivers.len() <= usize::MAX
        &&& self.inactive <= usize::MAX
        &&& self.senders <= usize::MAX
    }

    /// A channel that nobody can send to, or nobody can receive from any more, is closed.
    pub open spec fn attended(self) -> bool {
        self.closed || (self.senders > 0 && self.receivers.len() + self.inactive > 0)
    }

    /// What holds of a channel between any two operations.
    pub open spec fn valid(self) -> bool {
        self.coherent() && self.attended()
    }

    /// What a receiver at `pos` gets.
    pub open spec fn reads(self, pos: nat) -> Result<T, TryRecvError> {
        if pos < self.head {
            Err(TryRecvError::Overflowed((self.head - pos) as u64))
        } else if pos < self.tail() {
            Ok(self.sent[pos as int])
        } else if self.closed {
            Err(TryRecvError::Closed)
        } else {
            Err(TryRecvError::Empty)
        }
    }

    /// Where a receiver at `pos` is after an attempt to receive.
    pub open spec fn next(self, pos: nat) -> nat {
        if pos < self.head {
            self.head
        } else if pos < self.tail() {
            pos + 1
        } else {
            pos
        }
    }

    /// Whether a receiver at `pos` is the last one to read the oldest message held.
    pub open spec fn releases(self, pos: nat) -> bool {
        pos == self.head < self.tail() && self.waiting(pos) == 1
    }

    /// Closes the channel and wakes everybody, unless it is closed already.
    pub open spec fn closing(self) -> Self {
        if self.closed {
            self
        } else {
            Channel {
                closed: true,
                send_ops: self.send_ops.push(Signal::Notify(usize::MAX)),
                recv_ops: self.recv_ops.push(Signal::Notify(usize::MAX)),
                ..self
            }
        }
    }

    /// Closes the channel if there is neither an active nor an inactive receiver.
    pub open spec fn closing_unattended(self) -> Self {
        if self.receivers.len() == 0 && self.inactive == 0 {
            self.closing()
        } else {
            self
        }
    }

    /// One more sender.
    pub open spec fn sender_joins(self) -> Self {
        Channel { senders: self.senders + 1, ..self }
    }

    /// One sender less; the last one closes the channel.
    pub open spec fn sender_leaves(self) -> Self {
        let left = Channel { senders: (self.senders - 1) as nat, ..self };
        if left.senders == 0 {
            left.closing()
        } else {
            left
        }
    }

    /// One more receiver, which will only see messages that are yet to be sent.
    pub open spec fn receiver_joins(self) -> Self {
        Channel { receivers: self.receivers.insert(self.tail()), ..self }
    }

    /// One more receiver, out of an inactive one; the first receiver wakes one sender.
    pub open spec fn receiver_activates(self) -> Self {
        let joined = self.receiver_joins();
        if joined.receivers.len() == 1 {
            Channel { send_ops: joined.send_ops.push(Signal::Notify(1)), ..joined }
        } else {
            joined
        }
    }

    /// One more inactive receiver.
    pub open spec fn inactive_joins(self) -> Self {
        Channel { inactive: self.inactive + 1, ..self }
    }

    /// One inactive receiver less.
    pub open spec fn inactive_leaves(self) -> Self {
        Channel { inactive: (self.inactive - 1) as nat, ..self }.closing_unattended()
    }

    /// Sets overflow mode.
    pub open spec fn with_overflow(self, overflow: bool) -> Self {
        Channel { overflow, ..self }
    }

    /// A send operation starts to listen.
    pub open spec fn send_listens(self) -> Self {
        Channel { send_ops: self.send_ops.push(Signal::Listen), ..self }
    }

    /// A receive operation starts to listen.
    pub open spec fn recv_listens(self) -> Self {
        Channel { recv_ops: self.recv_ops.push(Signal::Listen), ..self }
    }

    /// Wakes one sender.
    pub open spec fn sender_woken(self) -> Self {
        Channel { send_ops: self.send_ops.push(Signal::Notify(1)), ..self }
    }
}

impl<T> Channel<T, ElementCountLimiter> {
    /// Changes how many messages the channel may hold. If it holds more, the oldest ones go.
    pub open spec fn with_capacity(self, new_cap: usize) -> Self {
        Channel {
            head: if self.queue().len() > new_cap {
                (self.tail() - new_cap) as nat
            } else {
                self.head
            },
            limiter: ElementCountLimiter(new_cap),
            ..self
        }
    }
}

/// What an attempt to receive at `pos` makes of the channel `pre`.
///
/// The receiver moves on. If it was the last one to read the oldest message, that message leaves
/// the channel, the limiter learns of it, and one waiting sender is woken unless the channel
/// overflows.
pub open spec fn received<T, L: CapacityLimiter<T>>(
    pre: Channel<T, L>,
    pos: nat,
    post: Channel<T, L>,
) -> bool {
    let receivers = moved(pre.receivers, pos, pre.next(pos));
    if pre.releases(pos) {
        &&& L::removed(pre.limiter, pre.queue()[0], pre.queue().skip(1), post.limiter)
        &&& post == Channel {
            head: pre.head + 1,
            receivers,
            limiter: post.limiter,
            send_ops: if pre.overflow {
                pre.send_ops
            } else {
                pre.send_ops.push(Signal::Notify(1))
            },
            ..pre
        }
    } else {
        post == Channel { receivers, ..pre }
    }
}

/// What a receiver at `pos` that goes makes of the channel `pre`: it reads whatever is left for
/// it, in `steps` attempts, and is then taken out. The channel closes if nobody is left.
pub open spec fn left<T, L: CapacityLimiter<T>>(
    pre: Channel<T, L>,
    pos: nat,
    steps: nat,
    post: Channel<T, L>,
) -> bool
    decreases steps,
{
    if steps == 0 {
        &&& pos == pre.tail()
        &&& post == Channel {
            receivers: pre.receivers.remove(pos),
            ..pre
        }.closing_unattended()
    } else {
        exists|mid: Channel<T, L>|
            #[trigger] received(pre, pos, mid) && left(
                mid,
                pre.next(pos),
                (steps - 1) as nat,
                post,
            )
    }
}

/// How many attempts it takes a receiver at `pos` to get to the end of the log.
pub open spec fn steps_to_tail<T, L>(channel: Channel<T, L>, pos: nat) -> nat {
    if pos < channel.head {
        (1 + channel.tail() - channel.head) as nat
    } else {
        (channel.tail() - pos) as nat
    }
}

/// What an attempt to send `msg` makes of the channel `pre`, and what it answers.
///
/// A closed channel, and one without active receivers, stays as it is. Otherwise the limiter
/// decides; in overflow mode it may have the oldest messages removed, the last of which is handed
/// back. A message that is added wakes all waiting receivers.
pub open spec fn broadcast_outcome<T, L: CapacityLimiter<T>>(
    pre: Channel<T, L>,
    msg: T,
    post: Channel<T, L>,
    result: Result<Option<T>, TrySendError<T, L::Error>>,
) -> bool {
    if pre.closed {
        &&& post == pre
        &&& result == Err::<Option<T>, TrySendError<T, L::Error>>(TrySendError::Closed(msg))
    } else if pre.receivers.len() == 0 {
        &&& post == pre
        &&& result == Err::<Option<T>, TrySendError<T, L::Error>>(TrySendError::Inactive(msg))
    } else {
        exists|evicted: nat, outcome: Admission<L::Error>|
            {
                &&& #[trigger] admits(
                    pre.limiter,
                    msg,
                    pre.queue(),
                    pre.overflow,
                    evicted,
                    post.limiter,
                    outcome,
                )
                &&& broadcast_done(pre, msg, evicted, outcome, post, result)
            }
    }
}

/// What is left of a send once the limiter has decided on `outcome` and had `evicted` of the
/// oldest messages removed.
pub open spec fn broadcast_done<T, L: CapacityLimiter<T>>(
    pre: Channel<T, L>,
    msg: T,
    evicted: nat,
    outcome: Admission<L::Error>,
    post: Channel<T, L>,
    result: Result<Option<T>, TrySendError<T, L::Error>>,
) -> bool {
    let emptied = Channel { head: pre.head + evicted, limiter: post.limiter, ..pre };
    match outcome {
        Admission::Added => {
            &&& post == Channel {
                sent: pre.sent.push(msg),
                recv_ops: pre.recv_ops.push(Signal::Notify(usize::MAX)),
                ..emptied
            }
            &&& result == Ok::<_, TrySendError<T, L::Error>>(
                if evicted > 0 {
                    Some(pre.queue()[evicted - 1])
                } else {
                    None
                },
            )
        },
        Admission::Full(error) => {
            &&& post == emptied
            &&& result == Err::<Option<T>, TrySendError<T, L::Error>>(
                TrySendError::Full { msg, error },
            )
        },
        Admission::Rejected(error) => {
            &&& post == emptied
            &&& result == Err::<Option<T>, TrySendError<T, L::Error>>(
                TrySendError::Rejected { msg, error },
            )
        },
    }
}

/// What an adjustment of the capacity makes of the channel `pre`, and what it answers: the oldest
/// messages go as the limiter asks for it. Nobody is woken.
pub open spec fn adjust_outcome<T, L: AdjustableCapacityLimiter<T>>(
    pre: Channel<T, L>,
    msg: L::Adjustment,
    post: Channel<T, L>,
    result: Result<(), L::Error>,
) -> bool {
    exists|evicted: nat|
        {
            &&& #[trigger] adjusts(pre.limiter, msg, pre.queue(), evicted, post.limiter, result)
            &&& post == Channel { head: pre.head + evicted, limiter: post.limiter, ..pre }
        }
}

} // verus!
