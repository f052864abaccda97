//! What the operations promise to their callers, stated of the calls themselves: of what goes into
//! a call, what comes out of it, and what the channel is before and after.
use crate::channel::Channel;
use crate::errors::{FullError, RecvError, SendError, TryRecvError, TrySendError};
use crate::inactive::InactiveReceiver;
use crate::inner::Inner;
use crate::laws::{
    law_adjustment_in_full, law_count_limit_settles_send, law_leaving_in_full,
    law_leaving_keeps_count_limit, law_receive_in_full, law_send_in_full,
};
use crate::limiter::{AdjustableCapacityLimiter, CapacityLimiter, ElementCountLimiter};
use crate::receiver::{Receiver, Recv};
use crate::sender::{Send, Sender};
use crate::signal::Signal;
use crate::step::Step;
use event_listener::EventListener;
use vstd::multiset::Multiset;
use vstd::prelude::*;

verus! {

/// A new channel is open and empty, without overflow mode, with one sender and one receiver that
/// waits for the first message, and nobody has been asked to wake anybody.
pub proof fn law_new_channel<T>(
    cap: usize,
    created: (Inner<T, ElementCountLimiter>, Sender<T>, Receiver<T>),
)
    requires
        cap > 0,
        call_ensures(crate::broadcast::<T>, (cap,), created),
    ensures
        created.0.wf(),
        created.0@.sent.len() == 0,
        created.0@.head == 0,
        created.0@.limiter.0 == cap,
        created.0@.receivers =~= Multiset::<nat>::empty().insert(0),
        created.0@.inactive == 0,
        created.0@.senders == 1,
        !created.0@.overflow,
        !created.0@.closed,
        created.0@.send_ops.len() == 0,
        created.0@.recv_ops.len() == 0,
        created.2.pos() == 0,
        created.2.listener() is None,
{
}

/// The same of a new channel with a limiter of any kind.
pub proof fn law_new_channel_with_limiter<T, L: CapacityLimiter<T>>(
    capacity: L,
    created: (Inner<T, L>, Sender<T, L>, Receiver<T, L>),
)
    requires
        call_ensures(crate::broadcast_with_limiter::<T, L>, (capacity,), created),
    ensures
        created.0.wf(),
        created.0@.sent.len() == 0,
        created.0@.head == 0,
        created.0@.limiter == capacity,
        created.0@.receivers =~= Multiset::<nat>::empty().insert(0),
        created.0@.inactive == 0,
        created.0@.senders == 1,
        !created.0@.overflow,
        !created.0@.closed,
        created.0@.send_ops.len() == 0,
        created.0@.recv_ops.len() == 0,
        created.2.pos() == 0,
        created.2.listener() is None,
{
}

/// What a sender tells of its channel is so: its mode, whether it is closed, how many
/// messages have been sent and have not left yet, and how many handles there are.
pub proof fn law_sender_tells_state<T, L: CapacityLimiter<T>>(
    sender: Sender<T, L>,
    inner: Inner<T, L>,
    overflow: bool,
    closed: bool,
    empty: bool,
    full: bool,
    n: usize,
    receivers: usize,
    inactives: usize,
    senders: usize,
)
    requires
        inner.wf(),
        call_ensures(Sender::<T, L>::overflow, (&sender, &inner), overflow),
        call_ensures(Sender::<T, L>::is_closed, (&sender, &inner), closed),
        call_ensures(Sender::<T, L>::is_empty, (&sender, &inner), empty),
        call_ensures(Sender::<T, L>::is_full, (&sender, &inner), full),
        call_ensures(Sender::<T, L>::len, (&sender, &inner), n),
        call_ensures(Sender::<T, L>::receiver_count, (&sender, &inner), receivers),
        call_ensures(Sender::<T, L>::inactive_receiver_count, (&sender, &inner), inactives),
        call_ensures(Sender::<T, L>::sender_count, (&sender, &inner), senders),
    ensures
        overflow == inner@.overflow,
        closed == inner@.closed,
        n == inner@.sent.len() - inner@.head,
        empty == (n == 0),
        inner@.limiter.full(inner@.sent.skip(inner@.head as int), full),
        receivers == inner@.receivers.len(),
        inactives == inner@.inactive,
        senders == inner@.senders,
{
}

/// A channel that is limited by the number of its elements is full exactly if it holds as many as
/// its capacity says, that is, exactly if it has no room for one more.
pub proof fn law_sender_tells_fullness<T>(
    sender: Sender<T>,
    inner: Inner<T, ElementCountLimiter>,
    full: bool,
    n: usize,
    capacity: usize,
)
    requires
        inner.wf(),
        call_ensures(Sender::<T, ElementCountLimiter>::is_full, (&sender, &inner), full),
        call_ensures(Sender::<T, ElementCountLimiter>::len, (&sender, &inner), n),
        call_ensures(Sender::<T>::capacity, (&sender, &inner), capacity),
    ensures
        full <==> n >= capacity,
        capacity == inner@.limiter.0,
{
}

/// Overflow mode is what it was last set to, and setting it changes nothing else.
pub proof fn law_sender_sets_overflow<T, L: CapacityLimiter<T>>(
    sender: &mut Sender<T, L>,
    inner: &mut Inner<T, L>,
    overflow: bool,
    other: Sender<T, L>,
    told: bool,
)
    requires
        old(inner).wf(),
        call_ensures(Sender::<T, L>::set_overflow, (sender, inner, overflow), ()),
        call_ensures(Sender::<T, L>::overflow, (&other, &*final(inner)), told),
    ensures
        final(inner).wf(),
        told == overflow,
        final(inner)@ == (Channel { overflow, ..old(inner)@ }),
{
}

/// Closing an open channel makes it closed and wakes everybody who waits; closing it again does
/// nothing. Nothing is taken from anybody.
pub proof fn law_sender_closes<T, L: CapacityLimiter<T>>(
    sender: Sender<T, L>,
    inner: &mut Inner<T, L>,
    done: bool,
    told: bool,
)
    requires
        old(inner).wf(),
        call_ensures(Sender::<T, L>::close, (&sender, inner), done),
        call_ensures(Sender::<T, L>::is_closed, (&sender, &*final(inner)), told),
    ensures
        final(inner).wf(),
        told,
        done == !old(inner)@.closed,
        final(inner)@ == if done {
            Channel {
                closed: true,
                send_ops: old(inner)@.send_ops.push(Signal::Notify(usize::MAX)),
                recv_ops: old(inner)@.recv_ops.push(Signal::Notify(usize::MAX)),
                ..old(inner)@
            }
        } else {
            old(inner)@
        },
{
}

/// A new capacity is told from then on. If the channel holds more messages, the oldest ones go
/// until it holds as many as it may; otherwise none goes. Nothing else changes.
pub proof fn law_sender_sets_capacity<T>(
    sender: &mut Sender<T>,
    inner: &mut Inner<T, ElementCountLimiter>,
    new_cap: usize,
    other: Sender<T>,
    told: usize,
    n: usize,
)
    requires
        old(inner).wf(),
        call_ensures(Sender::<T>::set_capacity, (sender, inner, new_cap), ()),
        call_ensures(Sender::<T>::capacity, (&other, &*final(inner)), told),
        call_ensures(Sender::<T, ElementCountLimiter>::len, (&other, &*final(inner)), n),
    ensures
        final(inner).wf(),
        told == new_cap,
        n == if old(inner)@.sent.len() - old(inner)@.head > new_cap {
            new_cap as int
        } else {
            old(inner)@.sent.len() - old(inner)@.head
        },
        final(inner)@ == (Channel {
            head: (old(inner)@.sent.len() - n) as nat,
            limiter: ElementCountLimiter(new_cap),
            ..old(inner)@
        }),
{
}

/// What a receiver tells of its channel is so: its mode, whether it is closed, how many
/// messages have been sent and have not left yet, and how many handles there are.
pub proof fn law_receiver_tells_state<T, L: CapacityLimiter<T>>(
    receiver: Receiver<T, L>,
    inner: Inner<T, L>,
    overflow: bool,
    closed: bool,
    empty: bool,
    full: bool,
    n: usize,
    receivers: usize,
    inactives: usize,
    senders: usize,
)
    requires
        inner.wf(),
        call_ensures(Receiver::<T, L>::overflow, (&receiver, &inner), overflow),
        call_ensures(Receiver::<T, L>::is_closed, (&receiver, &inner), closed),
        call_ensures(Receiver::<T, L>::is_empty, (&receiver, &inner), empty),
        call_ensures(Receiver::<T, L>::is_full, (&receiver, &inner), full),
        call_ensures(Receiver::<T, L>::len, (&receiver, &inner), n),
        call_ensures(Receiver::<T, L>::receiver_count, (&receiver, &inner), receivers),
        call_ensures(Receiver::<T, L>::inactive_receiver_count, (&receiver, &inner), inactives),
        call_ensures(Receiver::<T, L>::sender_count, (&receiver, &inner), senders),
    ensures
        overflow == inner@.overflow,
        closed == inner@.closed,
        n == inner@.sent.len() - inner@.head,
        empty == (n == 0),
        inner@.limiter.full(inner@.sent.skip(inner@.head as int), full),
        receivers == inner@.receivers.len(),
        inactives == inner@.inactive,
        senders == inner@.senders,
{
}

/// A channel that is limited by the number of its elements is full exactly if it holds as many as
/// its capacity says, that is, exactly if it has no room for one more.
pub proof fn law_receiver_tells_fullness<T>(
    receiver: Receiver<T>,
    inner: Inner<T, ElementCountLimiter>,
    full: bool,
    n: usize,
    capacity: usize,
)
    requires
        inner.wf(),
        call_ensures(Receiver::<T, ElementCountLimiter>::is_full, (&receiver, &inner), full),
        call_ensures(Receiver::<T, ElementCountLimiter>::len, (&receiver, &inner), n),
        call_ensures(Receiver::<T>::capacity, (&receiver, &inner), capacity),
    ensures
        full <==> n >= capacity,
        capacity == inner@.limiter.0,
{
}

/// Overflow mode is what it was last set to, and setting it changes nothing else.
pub proof fn law_receiver_sets_overflow<T, L: CapacityLimiter<T>>(
    receiver: &mut Receiver<T, L>,
    inner: &mut Inner<T, L>,
    overflow: bool,
    other: Receiver<T, L>,
    told: bool,
)
    requires
        old(inner).wf(),
        call_ensures(Receiver::<T, L>::set_overflow, (receiver, inner, overflow), ()),
        call_ensures(Receiver::<T, L>::overflow, (&other, &*final(inner)), told),
    ensures
        final(inner).wf(),
        told == overflow,
        final(inner)@ == (Channel { overflow, ..old(inner)@ }),
        final(receiver).pos() == old(receiver).pos(),
        final(receiver).listener() == old(receiver).listener(),
{
}

/// Closing an open channel makes it closed and wakes everybody who waits; closing it again does
/// nothing. Nothing is taken from anybody.
pub proof fn law_receiver_closes<T, L: CapacityLimiter<T>>(
    receiver: Receiver<T, L>,
    inner: &mut Inner<T, L>,
    done: bool,
    told: bool,
)
    requires
        old(inner).wf(),
        call_ensures(Receiver::<T, L>::close, (&receiver, inner), done),
        call_ensures(Receiver::<T, L>::is_closed, (&receiver, &*final(inner)), told),
    ensures
        final(inner).wf(),
        told,
        done == !old(inner)@.closed,
        final(inner)@ == if done {
            Channel {
                closed: true,
                send_ops: old(inner)@.send_ops.push(Signal::Notify(usize::MAX)),
                recv_ops: old(inner)@.recv_ops.push(Signal::Notify(usize::MAX)),
                ..old(inner)@
            }
        } else {
            old(inner)@
        },
{
}

/// A new capacity is told from then on. If the channel holds more messages, the oldest ones go
/// until it holds as many as it may; otherwise none goes. Nothing else changes.
pub proof fn law_receiver_sets_capacity<T>(
    receiver: &mut Receiver<T>,
    inner: &mut Inner<T, ElementCountLimiter>,
    new_cap: usize,
    other: Receiver<T>,
    told: usize,
    n: usize,
)
    requires
        old(inner).wf(),
        call_ensures(Receiver::<T>::set_capacity, (receiver, inner, new_cap), ()),
        call_ensures(Receiver::<T>::capacity, (&other, &*final(inner)), told),
        call_ensures(Receiver::<T, ElementCountLimiter>::len, (&other, &*final(inner)), n),
    ensures
        final(inner).wf(),
        told == new_cap,
        n == if old(inner)@.sent.len() - old(inner)@.head > new_cap {
            new_cap as int
        } else {
            old(inner)@.sent.len() - old(inner)@.head
        },
        final(inner)@ == (Channel {
            head: (old(inner)@.sent.len() - n) as nat,
            limiter: ElementCountLimiter(new_cap),
            ..old(inner)@
        }),
        final(receiver).pos() == old(receiver).pos(),
        final(receiver).listener() == old(receiver).listener(),
{
}

/// What an inactive receiver tells of its channel is so: its mode, whether it is closed, how many
/// messages have been sent and have not left yet, and how many handles there are.
pub proof fn law_inactive_tells_state<T, L: CapacityLimiter<T>>(
    inactive: InactiveReceiver<T, L>,
    inner: Inner<T, L>,
    overflow: bool,
    closed: bool,
    empty: bool,
    full: bool,
    n: usize,
    receivers: usize,
    inactives: usize,
    senders: usize,
)
    requires
        inner.wf(),
        call_ensures(InactiveReceiver::<T, L>::overflow, (&inactive, &inner), overflow),
        call_ensures(InactiveReceiver::<T, L>::is_closed, (&inactive, &inner), closed),
        call_ensures(InactiveReceiver::<T, L>::is_empty, (&inactive, &inner), empty),
        call_ensures(InactiveReceiver::<T, L>::is_full, (&inactive, &inner), full),
        call_ensures(InactiveReceiver::<T, L>::len, (&inactive, &inner), n),
        call_ensures(InactiveReceiver::<T, L>::receiver_count, (&inactive, &inner), receivers),
        call_ensures(
            InactiveReceiver::<T, L>::inactive_receiver_count,
            (&inactive, &inner),
            inactives,
        ),
        call_ensures(InactiveReceiver::<T, L>::sender_count, (&inactive, &inner), senders),
    ensures
        overflow == inner@.overflow,
        closed == inner@.closed,
        n == inner@.sent.len() - inner@.head,
        empty == (n == 0),
        inner@.limiter.full(inner@.sent.skip(inner@.head as int), full),
        receivers == inner@.receivers.len(),
        inactives == inner@.inactive,
        senders == inner@.senders,
{
}

/// A channel that is limited by the number of its elements is full exactly if it holds as many as
/// its capacity says, that is, exactly if it has no room for one more.
pub proof fn law_inactive_tells_fullness<T>(
    inactive: InactiveReceiver<T>,
    inner: Inner<T, ElementCountLimiter>,
    full: bool,
    n: usize,
    capacity: usize,
)
    requires
        inner.wf(),
        call_ensures(
            InactiveReceiver::<T, ElementCountLimiter>::is_full,
            (&inactive, &inner),
            full,
        ),
        call_ensures(InactiveReceiver::<T, ElementCountLimiter>::len, (&inactive, &inner), n),
        call_ensures(InactiveReceiver::<T>::capacity, (&inactive, &inner), capacity),
    ensures
        full <==> n >= capacity,
        capacity == inner@.limiter.0,
{
}

/// Overflow mode is what it was last set to, and setting it changes nothing else.
pub proof fn law_inactive_sets_overflow<T, L: CapacityLimiter<T>>(
    inactive: &mut InactiveReceiver<T, L>,
    inner: &mut Inner<T, L>,
    overflow: bool,
    other: InactiveReceiver<T, L>,
    told: bool,
)
    requires
        old(inner).wf(),
        call_ensures(InactiveReceiver::<T, L>::set_overflow, (inactive, inner, overflow), ()),
        call_ensures(InactiveReceiver::<T, L>::overflow, (&other, &*final(inner)), told),
    ensures
        final(inner).wf(),
        told == overflow,
        final(inner)@ == (Channel { overflow, ..old(inner)@ }),
{
}

/// Closing an open channel makes it closed and wakes everybody who waits; closing it again does
/// nothing. Nothing is taken from anybody.
pub proof fn law_inactive_closes<T, L: CapacityLimiter<T>>(
    inactive: InactiveReceiver<T, L>,
    inner: &mut Inner<T, L>,
    done: bool,
    told: bool,
)
    requires
        old(inner).wf(),
        call_ensures(InactiveReceiver::<T, L>::close, (&inactive, inner), done),
        call_ensures(InactiveReceiver::<T, L>::is_closed, (&inactive, &*final(inner)), told),
    ensures
        final(inner).wf(),
        told,
        done == !old(inner)@.closed,
        final(inner)@ == if done {
            Channel {
                closed: true,
                send_ops: old(inner)@.send_ops.push(Signal::Notify(usize::MAX)),
                recv_ops: old(inner)@.recv_ops.push(Signal::Notify(usize::MAX)),
                ..old(inner)@
            }
        } else {
            old(inner)@
        },
{
}

/// A new capacity is told from then on. If the channel holds more messages, the oldest ones go
/// until it holds as many as it may; otherwise none goes. Nothing else changes.
pub proof fn law_inactive_sets_capacity<T>(
    inactive: &mut InactiveReceiver<T>,
    inner: &mut Inner<T, ElementCountLimiter>,
    new_cap: usize,
    other: InactiveReceiver<T>,
    told: usize,
    n: usize,
)
    requires
        old(inner).wf(),
        call_ensures(InactiveReceiver::<T>::set_capacity, (inactive, inner, new_cap), ()),
        call_ensures(InactiveReceiver::<T>::capacity, (&other, &*final(inner)), told),
        call_ensures(InactiveReceiver::<T, ElementCountLimiter>::len, (&other, &*final(inner)), n),
    ensures
        final(inner).wf(),
        told == new_cap,
        n == if old(inner)@.sent.len() - old(inner)@.head > new_cap {
            new_cap as int
        } else {
            old(inner)@.sent.len() - old(inner)@.head
        },
        final(inner)@ == (Channel {
            head: (old(inner)@.sent.len() - n) as nat,
            limiter: ElementCountLimiter(new_cap),
            ..old(inner)@
        }),
{
}

/// An adjustment of the capacity only ever drops the oldest messages, each of them because the
/// limiter refused the adjustment with an error that is not fatal, and ends once the limiter
/// agrees, refuses for good, or nothing is left to drop. Nobody is woken.
pub proof fn law_sender_adjusts_capacity<T, L: AdjustableCapacityLimiter<T>>(
    sender: &mut Sender<T, L>,
    inner: &mut Inner<T, L>,
    adjustment: L::Adjustment,
)
    requires
        old(inner).wf(),
        call_ensures(Sender::<T, L>::adjust_capacity, (sender, inner, adjustment), ()),
    ensures
        final(inner).wf(),
        old(inner)@.head <= final(inner)@.head <= old(inner)@.sent.len(),
        final(inner)@ == (Channel {
            head: final(inner)@.head,
            limiter: final(inner)@.limiter,
            ..old(inner)@
        }),
        exists|at: L, msg: L::Adjustment, msg_post: L::Adjustment, result: Result<(), L::Error>|
            {
                &&& #[trigger] L::adjusted(
                    at,
                    msg,
                    old(inner)@.sent.skip(final(inner)@.head as int),
                    final(inner)@.limiter,
                    msg_post,
                    result,
                )
                &&& final(inner)@.head == old(inner)@.head ==> at == old(inner)@.limiter && msg
                    == adjustment
                &&& match result {
                    Ok(_) => true,
                    Err(e) => final(inner)@.limiter.fatal(e, true) || final(inner)@.head == old(
                        inner,
                    )@.sent.len(),
                }
            },
        final(inner)@.head > old(inner)@.head ==> exists|
            refused: L,
            msg_post: L::Adjustment,
            e: L::Error,
        |
            {
                &&& #[trigger] L::adjusted(
                    old(inner)@.limiter,
                    adjustment,
                    old(inner)@.sent.skip(old(inner)@.head as int),
                    refused,
                    msg_post,
                    Err(e),
                )
                &&& refused.fatal(e, false)
            },
{
    let pre = old(inner)@;
    let post = final(inner)@;
    let result = choose|result: Result<(), L::Error>|
        crate::channel::adjust_outcome(pre, adjustment, post, result);
    law_adjustment_in_full(pre, adjustment, post, result);
}

/// What is told of the limiter is a clone of it.
pub proof fn law_sender_tells_limiter<T, L: CapacityLimiter<T> + Clone>(
    sender: Sender<T, L>,
    inner: Inner<T, L>,
    limiter: L,
)
    requires
        call_ensures(Sender::<T, L>::capacity_limiter, (&sender, &inner), limiter),
    ensures
        cloned(inner@.limiter, limiter),
{
}

/// An adjustment of the capacity only ever drops the oldest messages, each of them because the
/// limiter refused the adjustment with an error that is not fatal, and ends once the limiter
/// agrees, refuses for good, or nothing is left to drop. Nobody is woken.
pub proof fn law_receiver_adjusts_capacity<T, L: AdjustableCapacityLimiter<T>>(
    receiver: &mut Receiver<T, L>,
    inner: &mut Inner<T, L>,
    adjustment: L::Adjustment,
)
    requires
        old(inner).wf(),
        call_ensures(Receiver::<T, L>::adjust_capacity, (receiver, inner, adjustment), ()),
    ensures
        final(inner).wf(),
        old(inner)@.head <= final(inner)@.head <= old(inner)@.sent.len(),
        final(inner)@ == (Channel {
            head: final(inner)@.head,
            limiter: final(inner)@.limiter,
            ..old(inner)@
        }),
        exists|at: L, msg: L::Adjustment, msg_post: L::Adjustment, result: Result<(), L::Error>|
            {
                &&& #[trigger] L::adjusted(
                    at,
                    msg,
                    old(inner)@.sent.skip(final(inner)@.head as int),
                    final(inner)@.limiter,
                    msg_post,
                    result,
                )
                &&& final(inner)@.head == old(inner)@.head ==> at == old(inner)@.limiter && msg
                    == adjustment
                &&& match result {
                    Ok(_) => true,
                    Err(e) => final(inner)@.limiter.fatal(e, true) || final(inner)@.head == old(
                        inner,
                    )@.sent.len(),
                }
            },
        final(inner)@.head > old(inner)@.head ==> exists|
            refused: L,
            msg_post: L::Adjustment,
            e: L::Error,
        |
            {
                &&& #[trigger] L::adjusted(
                    old(inner)@.limiter,
                    adjustment,
                    old(inner)@.sent.skip(old(inner)@.head as int),
                    refused,
                    msg_post,
                    Err(e),
                )
                &&& refused.fatal(e, false)
            },
        final(receiver).pos() == old(receiver).pos(),
        final(receiver).listener() == old(receiver).listener(),
{
    let pre = old(inner)@;
    let post = final(inner)@;
    let result = choose|result: Result<(), L::Error>|
        crate::channel::adjust_outcome(pre, adjustment, post, result);
    law_adjustment_in_full(pre, adjustment, post, result);
}

/// What is told of the limiter is a clone of it.
pub proof fn law_receiver_tells_limiter<T, L: CapacityLimiter<T> + Clone>(
    receiver: Receiver<T, L>,
    inner: Inner<T, L>,
    limiter: L,
)
    requires
        call_ensures(Receiver::<T, L>::capacity_limiter, (&receiver, &inner), limiter),
    ensures
        cloned(inner@.limiter, limiter),
{
}

/// An attempt to send: what it answers, and what becomes of the channel.
///
/// A closed channel and one without active receivers hand the message back and stay as they are.
/// Otherwise the message is either taken, at the end of the log, and everybody who waits to receive
/// is woken; or it comes back, as full for now or as rejected for good. Only overflow mode costs
/// other messages, always the oldest, the last of which is handed out with a message that is taken.
pub proof fn law_try_broadcast<T: Clone, L: CapacityLimiter<T>>(
    sender: Sender<T, L>,
    inner: &mut Inner<T, L>,
    msg: T,
    result: Result<Option<T>, TrySendError<T, L::Error>>,
)
    requires
        old(inner).wf(),
        old(inner)@.sent.len() < u64::MAX,
        call_ensures(Sender::<T, L>::try_broadcast, (&sender, inner, msg), result),
    ensures
        final(inner).wf(),
        ({
            let pre = old(inner)@;
            let post = final(inner)@;
            &&& pre.closed ==> post == pre && result == Err::<
                Option<T>,
                TrySendError<T, L::Error>,
            >(TrySendError::Closed(msg))
            &&& !pre.closed && pre.receivers.len() == 0 ==> post == pre && result == Err::<
                Option<T>,
                TrySendError<T, L::Error>,
            >(TrySendError::Inactive(msg))
            &&& !pre.closed && pre.receivers.len() > 0 ==> {
                &&& pre.head <= post.head <= pre.sent.len()
                &&& !pre.overflow ==> post.head == pre.head
                &&& match result {
                    Ok(ret) => {
                        &&& post == Channel {
                            sent: pre.sent.push(msg),
                            head: post.head,
                            limiter: post.limiter,
                            recv_ops: pre.recv_ops.push(Signal::Notify(usize::MAX)),
                            ..pre
                        }
                        &&& ret == if post.head > pre.head {
                            Some(pre.sent[post.head - 1])
                        } else {
                            None
                        }
                        &&& exists|at: L| #[trigger]
                            L::added(
                                at,
                                msg,
                                pre.sent.skip(post.head as int),
                                post.limiter,
                                Ok(()),
                            ) && (post.head == pre.head ==> at == pre.limiter)
                    },
                    Err(TrySendError::Full { msg: unsent, error }) => {
                        &&& unsent == msg
                        &&& !pre.overflow && pre.head < pre.sent.len()
                        &&& L::added(
                            pre.limiter,
                            msg,
                            pre.sent.skip(pre.head as int),
                            post.limiter,
                            Err(error),
                        )
                        &&& post.limiter.fatal(error, false)
                        &&& post == Channel { limiter: post.limiter, ..pre }
                    },
                    Err(TrySendError::Rejected { msg: unsent, error }) => {
                        &&& unsent == msg
                        &&& exists|at: L| #[trigger]
                            L::added(
                                at,
                                msg,
                                pre.sent.skip(post.head as int),
                                post.limiter,
                                Err(error),
                            ) && (post.head == pre.head ==> at == pre.limiter)
                        &&& post.head == pre.sent.len() || post.limiter.fatal(error, true)
                        &&& post == Channel { head: post.head, limiter: post.limiter, ..pre }
                    },
                    Err(_) => false,
                }
            }
        }),
{
    let pre = old(inner)@;
    let post = final(inner)@;
    law_send_in_full(pre, msg, post, result);
    if !pre.closed && pre.receivers.len() > 0 {
        let (at, answer) = choose|at: L, answer: Result<(), L::Error>|
            {
                &&& #[trigger] L::added(
                    at,
                    msg,
                    pre.sent.skip(post.head as int),
                    post.limiter,
                    answer,
                )
                &&& post.head == pre.head ==> at == pre.limiter
                &&& match answer {
                    Ok(_) => result is Ok,
                    Err(e) => result matches Err(error) && (error == TrySendError::Full {
                        msg,
                        error: e,
                    } || error == TrySendError::Rejected { msg, error: e }),
                }
            };
        let held = pre.sent.skip(post.head as int);
        match result {
            Ok(_) => {
                if let Ok(unit) = answer {
                    assert(unit == ());
                }
                assert(L::added(at, msg, held, post.limiter, Ok(())));
                assert(exists|at: L| #[trigger]
                    L::added(at, msg, held, post.limiter, Ok(())) && (post.head == pre.head ==> at
                        == pre.limiter));
            },
            Err(TrySendError::Full { error, .. }) => {
                assert(L::added(pre.limiter, msg, held, post.limiter, Err(error)));
            },
            Err(TrySendError::Rejected { error, .. }) => {
                assert(L::added(at, msg, held, post.limiter, Err(error)));
                assert(exists|at: L| #[trigger]
                    L::added(at, msg, held, post.limiter, Err(error)) && (post.head == pre.head
                        ==> at == pre.limiter));
            },
            Err(_) => {},
        }
    }
}

/// An attempt to send on an open channel with receivers that is limited by the number of its
/// elements: it succeeds exactly if the channel is not full, or overflows and allows any element at
/// all.
pub proof fn law_try_broadcast_with_count_limit<T: Clone>(
    sender: Sender<T>,
    inner: &mut Inner<T, ElementCountLimiter>,
    msg: T,
    result: Result<Option<T>, TrySendError<T, FullError>>,
    full: bool,
)
    requires
        old(inner).wf(),
        old(inner)@.sent.len() < u64::MAX,
        !old(inner)@.closed,
        old(inner)@.receivers.len() > 0,
        call_ensures(Sender::<T, ElementCountLimiter>::is_full, (&sender, &*old(inner)), full),
        call_ensures(
            Sender::<T, ElementCountLimiter>::try_broadcast,
            (&sender, inner, msg),
            result,
        ),
    ensures
        ({
            let pre = old(inner)@;
            let post = final(inner)@;
            let cap = pre.limiter.0;
            &&& result is Ok <==> !full || (pre.overflow && cap > 0)
            &&& post.limiter.0 == cap
            &&& !full ==> {
                &&& result == Ok::<Option<T>, TrySendError<T, FullError>>(None)
                &&& post.head == pre.head
            }
            &&& full && pre.overflow && cap > 0 ==> {
                &&& result == Ok::<Option<T>, TrySendError<T, FullError>>(
                    Some(pre.sent[pre.sent.len() - cap]),
                )
                &&& post.sent.len() - post.head == cap
            }
            &&& full && !pre.overflow ==> post == pre && (result matches Err(error) && {
                ||| error == TrySendError::Full { msg, error: FullError } && pre.head
                    < pre.sent.len()
                ||| error == TrySendError::Rejected { msg, error: FullError } && pre.head
                    == pre.sent.len()
            })
            &&& full && pre.overflow && cap == 0 ==> {
                &&& result == Err::<Option<T>, TrySendError<T, FullError>>(
                    TrySendError::Rejected { msg, error: FullError },
                )
                &&& post.head == pre.sent.len()
            }
        }),
{
    let pre = old(inner)@;
    let post = final(inner)@;
    law_send_in_full(pre, msg, post, result);
    law_count_limit_settles_send(pre, msg, post, result);
}

/// An attempt to receive: what it answers, where the receiver is afterwards, and what becomes of
/// the channel.
///
/// The receiver gets the message at its position, itself if it is the last one to read it and a
/// clone of it otherwise; or it is told how many messages it missed, that there is nothing yet, or
/// that there will be nothing any more. An open channel is never called closed.
pub proof fn law_try_recv<T: Clone, L: CapacityLimiter<T>>(
    receiver: &mut Receiver<T, L>,
    inner: &mut Inner<T, L>,
    result: Result<T, TryRecvError>,
)
    requires
        old(inner).wf(),
        old(inner)@.receivers.contains(old(receiver).pos()),
        call_ensures(Receiver::<T, L>::try_recv, (receiver, inner), result),
    ensures
        final(inner).wf(),
        final(inner)@.receivers.contains(final(receiver).pos()),
        final(receiver).listener() == old(receiver).listener(),
        ({
            let pre = old(inner)@;
            let post = final(inner)@;
            let pos = old(receiver).pos();
            let to = final(receiver).pos();
            let last = pos == pre.head && pos < pre.sent.len() && forall|p: nat| #[trigger]
                pre.receivers.remove(pos).contains(p) ==> p > pos;
            &&& pos < pre.head ==> {
                &&& result matches Err(TryRecvError::Overflowed(n)) && n == pre.head - pos
                &&& to == pre.head
            }
            &&& pre.head <= pos < pre.sent.len() ==> {
                &&& result matches Ok(m) && (if last {
                    m == pre.sent[pos as int]
                } else {
                    cloned(pre.sent[pos as int], m)
                })
                &&& to == pos + 1
            }
            &&& pos >= pre.sent.len() ==> {
                &&& pre.closed ==> result == Err::<T, _>(TryRecvError::Closed)
                &&& !pre.closed ==> result == Err::<T, _>(TryRecvError::Empty)
                &&& to == pos
                &&& post == pre
            }
            &&& post == Channel {
                head: if last {
                    pre.head + 1
                } else {
                    pre.head
                },
                limiter: post.limiter,
                receivers: pre.receivers.remove(pos).insert(to),
                send_ops: if last && !pre.overflow {
                    pre.send_ops.push(Signal::Notify(1))
                } else {
                    pre.send_ops
                },
                ..pre
            }
            &&& last ==> L::removed(
                pre.limiter,
                pre.sent[pos as int],
                pre.sent.skip(pos as int + 1),
                post.limiter,
            )
            &&& !last ==> post.limiter == pre.limiter
        }),
{
    law_receive_in_full(old(inner)@, old(receiver).pos(), final(inner)@);
}

/// A sender that is cloned is one more sender, and one that is dropped is one less. The last one
/// closes an open channel and wakes everybody. Nothing else changes.
pub proof fn law_senders_come_and_go<T, L: CapacityLimiter<T>>(
    sender: Sender<T, L>,
    a: &mut Inner<T, L>,
    other: Sender<T, L>,
    b: &mut Inner<T, L>,
)
    requires
        old(a).wf(),
        old(a)@.senders < usize::MAX,
        call_ensures(Sender::<T, L>::clone, (&sender, a), other),
        old(b).wf(),
        old(b)@.senders > 0,
        call_ensures(Sender::<T, L>::drop, (sender, b), ()),
    ensures
        final(a).wf(),
        final(a)@ == (Channel { senders: old(a)@.senders + 1, ..old(a)@ }),
        final(b).wf(),
        ({
            let pre = old(b)@;
            let left = Channel { senders: (pre.senders - 1) as nat, ..pre };
            final(b)@ == if pre.senders == 1 && !pre.closed {
                Channel {
                    closed: true,
                    send_ops: pre.send_ops.push(Signal::Notify(usize::MAX)),
                    recv_ops: pre.recv_ops.push(Signal::Notify(usize::MAX)),
                    ..left
                }
            } else {
                left
            }
        }),
{
}

/// A receiver that is cloned is one more receiver, which gets only what is sent from then on.
/// Nothing else changes.
pub proof fn law_receiver_clones<T, L: CapacityLimiter<T>>(
    receiver: Receiver<T, L>,
    inner: &mut Inner<T, L>,
    other: Receiver<T, L>,
)
    requires
        old(inner).wf(),
        old(inner)@.receivers.len() < usize::MAX,
        call_ensures(Receiver::<T, L>::clone, (&receiver, inner), other),
    ensures
        final(inner).wf(),
        other.pos() == old(inner)@.sent.len(),
        other.listener() is None,
        final(inner)@ == (Channel {
            receivers: old(inner)@.receivers.insert(other.pos()),
            ..old(inner)@
        }),
{
}

/// A receiver that is dropped is one less. The messages that only it still had to read go, and no
/// others; for each of them one waiting sender is woken, unless the channel is in overflow mode.
/// The last receiver closes an open channel, unless there is an inactive one, and wakes everybody.
/// Nothing else changes but the limiter.
pub proof fn law_receiver_drops<T, L: CapacityLimiter<T>>(
    receiver: Receiver<T, L>,
    inner: &mut Inner<T, L>,
)
    requires
        old(inner).wf(),
        old(inner)@.receivers.contains(receiver.pos()),
        call_ensures(Receiver::<T, L>::drop, (receiver, inner), ()),
    ensures
        final(inner).wf(),
        ({
            let pre = old(inner)@;
            let post = final(inner)@;
            let rest = pre.receivers.remove(receiver.pos());
            let gone = (post.head - pre.head) as nat;
            let told = if pre.overflow {
                pre.send_ops
            } else {
                pre.send_ops + Seq::new(gone, |i: int| Signal::Notify(1))
            };
            let closing = !pre.closed && pre.receivers.len() == 1 && pre.inactive == 0;
            &&& pre.head <= post.head <= pre.sent.len()
            &&& forall|p: nat| #[trigger]
                rest.contains(p) ==> post.head <= p || post.head == pre.head
            &&& post.head < pre.sent.len() ==> exists|p: nat| #[trigger]
                rest.contains(p) && p <= post.head
            &&& post == Channel {
                head: post.head,
                limiter: post.limiter,
                receivers: rest,
                closed: pre.closed || closing,
                send_ops: if closing {
                    told.push(Signal::Notify(usize::MAX))
                } else {
                    told
                },
                recv_ops: if closing {
                    pre.recv_ops.push(Signal::Notify(usize::MAX))
                } else {
                    pre.recv_ops
                },
                ..pre
            }
            &&& post.head == pre.head ==> post.limiter == pre.limiter
        }),
{
    law_leaving_in_full(old(inner)@, receiver.pos(), final(inner)@);
}

/// A receiver that is deactivated goes just as one that is dropped, but there is one more inactive
/// receiver instead, so that the channel does not close.
pub proof fn law_receiver_deactivates<T, L: CapacityLimiter<T>>(
    receiver: Receiver<T, L>,
    inner: &mut Inner<T, L>,
    inactive: InactiveReceiver<T, L>,
)
    requires
        old(inner).wf(),
        old(inner)@.receivers.contains(receiver.pos()),
        old(inner)@.inactive < usize::MAX,
        call_ensures(Receiver::<T, L>::deactivate, (receiver, inner), inactive),
    ensures
        final(inner).wf(),
        ({
            let pre = old(inner)@;
            let post = final(inner)@;
            let rest = pre.receivers.remove(receiver.pos());
            let gone = (post.head - pre.head) as nat;
            &&& pre.head <= post.head <= pre.sent.len()
            &&& forall|p: nat| #[trigger]
                rest.contains(p) ==> post.head <= p || post.head == pre.head
            &&& post.head < pre.sent.len() ==> exists|p: nat| #[trigger]
                rest.contains(p) && p <= post.head
            &&& post == Channel {
                head: post.head,
                limiter: post.limiter,
                receivers: rest,
                inactive: pre.inactive + 1,
                send_ops: if pre.overflow {
                    pre.send_ops
                } else {
                    pre.send_ops + Seq::new(gone, |i: int| Signal::Notify(1))
                },
                ..pre
            }
            &&& post.head == pre.head ==> post.limiter == pre.limiter
        }),
{
    let joined = old(inner)@.inactive_joins();
    assert(joined.coherent());
    assert(joined =~= Channel { inactive: old(inner)@.inactive + 1, ..old(inner)@ });
    law_leaving_in_full(joined, receiver.pos(), final(inner)@);
}

/// A receiver that goes leaves a limit on the number of elements alone.
pub proof fn law_receiver_drop_keeps_count_limit<T>(
    receiver: Receiver<T>,
    inner: &mut Inner<T, ElementCountLimiter>,
)
    requires
        old(inner).wf(),
        old(inner)@.receivers.contains(receiver.pos()),
        call_ensures(Receiver::<T, ElementCountLimiter>::drop, (receiver, inner), ()),
    ensures
        final(inner)@.limiter.0 == old(inner)@.limiter.0,
{
    law_leaving_keeps_count_limit(old(inner)@, receiver.pos(), final(inner)@);
}

/// A receiver that is activated is one more receiver, which gets only what is sent from then on.
/// The first one wakes one waiting sender. The inactive receiver stays, or goes if it is used up.
/// Nothing else changes.
pub proof fn law_receiver_activates<T, L: CapacityLimiter<T>>(
    inactive: InactiveReceiver<T, L>,
    a: &mut Inner<T, L>,
    from_clone: Receiver<T, L>,
    b: &mut Inner<T, L>,
    from_self: Receiver<T, L>,
)
    requires
        old(a).wf(),
        old(a)@.receivers.len() < usize::MAX,
        call_ensures(InactiveReceiver::<T, L>::activate_cloned, (&inactive, a), from_clone),
        old(b).wf(),
        old(b)@.receivers.len() < usize::MAX,
        old(b)@.inactive > 0,
        call_ensures(InactiveReceiver::<T, L>::activate, (inactive, b), from_self),
    ensures
        final(a).wf(),
        from_clone.pos() == old(a)@.sent.len(),
        from_clone.listener() is None,
        final(a)@ == (Channel {
            receivers: old(a)@.receivers.insert(from_clone.pos()),
            send_ops: if old(a)@.receivers.len() == 0 {
                old(a)@.send_ops.push(Signal::Notify(1))
            } else {
                old(a)@.send_ops
            },
            ..old(a)@
        }),
        final(b).wf(),
        from_self.pos() == old(b)@.sent.len(),
        from_self.listener() is None,
        final(b)@ == (Channel {
            receivers: old(b)@.receivers.insert(from_self.pos()),
            inactive: (old(b)@.inactive - 1) as nat,
            send_ops: if old(b)@.receivers.len() == 0 {
                old(b)@.send_ops.push(Signal::Notify(1))
            } else {
                old(b)@.send_ops
            },
            ..old(b)@
        }),
{
}

/// An inactive receiver that is cloned is one more, and one that is dropped is one less. The last
/// receiver of any kind closes an open channel and wakes everybody. Nothing else changes.
pub proof fn law_inactive_receivers_come_and_go<T, L: CapacityLimiter<T>>(
    inactive: InactiveReceiver<T, L>,
    a: &mut Inner<T, L>,
    other: InactiveReceiver<T, L>,
    b: &mut Inner<T, L>,
)
    requires
        old(a).wf(),
        old(a)@.inactive < usize::MAX,
        call_ensures(InactiveReceiver::<T, L>::clone, (&inactive, a), other),
        old(b).wf(),
        old(b)@.inactive > 0,
        call_ensures(InactiveReceiver::<T, L>::drop, (inactive, b), ()),
    ensures
        final(a).wf(),
        final(a)@ == (Channel { inactive: old(a)@.inactive + 1, ..old(a)@ }),
        final(b).wf(),
        ({
            let pre = old(b)@;
            let left = Channel { inactive: (pre.inactive - 1) as nat, ..pre };
            final(b)@ == if pre.inactive == 1 && pre.receivers.len() == 0 && !pre.closed {
                Channel {
                    closed: true,
                    send_ops: pre.send_ops.push(Signal::Notify(usize::MAX)),
                    recv_ops: pre.recv_ops.push(Signal::Notify(usize::MAX)),
                    ..left
                }
            } else {
                left
            }
        }),
{
}

/// The stream of a receiver has come to its end exactly if the channel is closed and holds nothing.
pub proof fn law_end_of_stream<T, L: CapacityLimiter<T>>(
    receiver: Receiver<T, L>,
    inner: Inner<T, L>,
    terminated: bool,
)
    requires
        inner.wf(),
        call_ensures(Receiver::<T, L>::is_terminated, (&receiver, &inner), terminated),
    ensures
        terminated <==> inner@.closed && inner@.head == inner@.sent.len(),
{
}

/// The shared state tells how many messages were ever sent, and its limiter.
pub proof fn law_state_tells_log<T, L: CapacityLimiter<T>>(
    inner: Inner<T, L>,
    sent: u64,
    limiter: &L,
)
    requires
        inner.wf(),
        call_ensures(Inner::<T, L>::sent_count, (&inner,), sent),
        call_ensures(Inner::<T, L>::limiter, (&inner,), limiter),
    ensures
        sent == inner@.sent.len(),
        *limiter == inner@.limiter,
{
}

/// The shared state tells how an adjustment of the capacity came out: as the limiter answered last,
/// which is an error only if it is fatal or nothing is left to drop.
pub proof fn law_state_adjusts<T, L: AdjustableCapacityLimiter<T>>(
    inner: &mut Inner<T, L>,
    adjustment: L::Adjustment,
    result: Result<(), L::Error>,
)
    requires
        old(inner).wf(),
        call_ensures(Inner::<T, L>::adjust_capacity, (inner, adjustment), result),
    ensures
        final(inner).wf(),
        exists|at: L, current: L::Adjustment, msg_post: L::Adjustment|
            {
                &&& #[trigger] L::adjusted(
                    at,
                    current,
                    old(inner)@.sent.skip(final(inner)@.head as int),
                    final(inner)@.limiter,
                    msg_post,
                    result,
                )
                &&& final(inner)@.head == old(inner)@.head ==> at == old(inner)@.limiter && current
                    == adjustment
            },
        result matches Err(e) ==> final(inner)@.limiter.fatal(e, true) || final(inner)@.head
            == old(inner)@.sent.len(),
{
    law_adjustment_in_full(old(inner)@, adjustment, final(inner)@, result);
}

/// A waiting send starts with its message and without a listener.
pub proof fn law_waiting_send_starts<'a, T: Clone, L: CapacityLimiter<T>>(
    sender: &'a Sender<T, L>,
    msg: T,
    send: Send<'a, T, L>,
)
    requires
        call_ensures(Sender::<T, L>::broadcast, (sender, msg), send),
    ensures
        send.msg == Some(msg),
        send.listener is None,
        send.sender == sender,
{
}

/// One round of a waiting send.
///
/// On a closed channel it ends with an error that holds the message. Without active receivers, and
/// where the limiter refuses for now, it keeps the message; it starts to listen to the event that
/// those who wait to send are woken by, and is to try again, or waits if it listens already. A
/// message that is taken ends it, and wakes the next waiting sender unless the channel is full now.
/// A message that is refused for good ends it with an error that holds the message.
pub proof fn law_waiting_send_round<'a, T: Clone, L: CapacityLimiter<T>>(
    send: &mut Send<'a, T, L>,
    inner: &mut Inner<T, L>,
    step: Step<Result<Option<T>, SendError<T, L::Error>>>,
)
    requires
        old(send).msg is Some,
        old(inner).wf(),
        old(inner)@.sent.len() < u64::MAX,
        call_ensures(Send::<T, L>::poll, (send, inner), step),
    ensures
        final(inner).wf(),
        ({
            let msg = old(send).msg->0;
            let pre = old(inner)@;
            let post = final(inner)@;
            let starts = old(send).listener is None;
            &&& pre.closed ==> {
                &&& step == Step::Ready(
                    Err::<Option<T>, SendError<T, L::Error>>(SendError::Closed(msg)),
                )
                &&& post == pre
            }
            &&& !pre.closed && pre.receivers.len() == 0 ==> {
                &&& !(step is Ready)
                &&& post == Channel {
                    send_ops: if starts {
                        pre.send_ops.push(Signal::Listen)
                    } else {
                        pre.send_ops
                    },
                    ..pre
                }
            }
            &&& match step {
                Step::Ready(Ok(ret)) => {
                    &&& !pre.closed && pre.receivers.len() > 0
                    &&& final(send).msg is None
                    &&& pre.head <= post.head <= pre.sent.len()
                    &&& ret == if post.head > pre.head {
                        Some(pre.sent[post.head - 1])
                    } else {
                        None
                    }
                    &&& !pre.overflow ==> post.head == pre.head
                    &&& post == Channel {
                        sent: pre.sent.push(msg),
                        head: post.head,
                        limiter: post.limiter,
                        send_ops: post.send_ops,
                        recv_ops: pre.recv_ops.push(Signal::Notify(usize::MAX)),
                        ..pre
                    }
                    &&& {
                        ||| post.send_ops == pre.send_ops && post.limiter.full(
                            post.sent.skip(post.head as int),
                            true,
                        )
                        ||| post.send_ops == pre.send_ops.push(Signal::Notify(1))
                            && post.limiter.full(post.sent.skip(post.head as int), false)
                    }
                },
                Step::Ready(Err(SendError::Closed(unsent))) => {
                    &&& unsent == msg
                    &&& pre.closed
                    &&& final(send).msg is None
                },
                Step::Ready(Err(SendError::Rejected { msg: unsent, error })) => {
                    &&& unsent == msg
                    &&& !pre.closed && pre.receivers.len() > 0
                    &&& final(send).msg is None
                    &&& post.head == pre.sent.len() || post.limiter.fatal(error, true)
                    &&& post == Channel { head: post.head, limiter: post.limiter, ..pre }
                },
                Step::Retry => {
                    &&& starts
                    &&& !pre.closed
                    &&& final(send).msg == Some(msg)
                    &&& final(send).listener matches Some(l) && final(inner).send_heard_by(l)
                    &&& post == Channel {
                        limiter: post.limiter,
                        send_ops: pre.send_ops.push(Signal::Listen),
                        ..pre
                    }
                    &&& pre.receivers.len() > 0 ==> !pre.overflow && pre.head < pre.sent.len()
                },
                Step::Wait => {
                    &&& !starts
                    &&& !pre.closed
                    &&& final(send).msg == Some(msg)
                    &&& final(send).listener == old(send).listener
                    &&& post == Channel { limiter: post.limiter, ..pre }
                    &&& pre.receivers.len() > 0 ==> !pre.overflow && pre.head < pre.sent.len()
                },
            }
        }),
{
    let msg = old(send).msg->0;
    let pre = old(inner)@;
    let (mid, result) = choose|
        mid: Channel<T, L>,
        result: Result<Option<T>, TrySendError<T, L::Error>>,
    |
        {
            &&& #[trigger] crate::channel::broadcast_outcome(pre, msg, mid, result)
            &&& crate::sender::send_round(
                *old(send),
                mid,
                result,
                *final(send),
                final(inner)@,
                step,
            )
        };
    law_send_in_full(pre, msg, mid, result);
}

/// One round of a waiting send on an open channel with receivers that is limited by the number of
/// its elements: it ends in this round exactly if the channel is not full, or is in overflow mode,
/// or allows no element at all, and then passes the word on exactly if there is still room.
pub proof fn law_waiting_send_round_with_count_limit<'a, T: Clone>(
    send: &mut Send<'a, T, ElementCountLimiter>,
    inner: &mut Inner<T, ElementCountLimiter>,
    step: Step<Result<Option<T>, SendError<T, FullError>>>,
)
    requires
        old(send).msg is Some,
        old(inner).wf(),
        old(inner)@.sent.len() < u64::MAX,
        !old(inner)@.closed,
        old(inner)@.receivers.len() > 0,
        call_ensures(Send::<T, ElementCountLimiter>::poll, (send, inner), step),
    ensures
        ({
            let pre = old(inner)@;
            let post = final(inner)@;
            let cap = pre.limiter.0;
            let n = pre.sent.len() - pre.head;
            &&& post.limiter.0 == cap
            &&& n < cap ==> {
                &&& step == Step::Ready(Ok::<Option<T>, SendError<T, FullError>>(None))
                &&& post.send_ops == if n + 1 < cap {
                    pre.send_ops.push(Signal::Notify(1))
                } else {
                    pre.send_ops
                }
            }
            &&& n >= cap && n > 0 && !pre.overflow ==> !(step is Ready)
            &&& n >= cap > 0 && pre.overflow ==> step == Step::Ready(
                Ok::<Option<T>, SendError<T, FullError>>(Some(pre.sent[pre.sent.len() - cap])),
            )
            &&& cap == 0 && (n == 0 || pre.overflow) ==> step matches Step::Ready(
                Err(SendError::Rejected { .. }),
            )
        }),
{
    let msg = old(send).msg->0;
    let pre = old(inner)@;
    let (mid, result) = choose|
        mid: Channel<T, ElementCountLimiter>,
        result: Result<Option<T>, TrySendError<T, FullError>>,
    |
        {
            &&& #[trigger] crate::channel::broadcast_outcome(pre, msg, mid, result)
            &&& crate::sender::send_round(
                *old(send),
                mid,
                result,
                *final(send),
                final(inner)@,
                step,
            )
        };
    law_send_in_full(pre, msg, mid, result);
    law_count_limit_settles_send(pre, msg, mid, result);
}

/// A waiting receive starts without a listener.
pub proof fn law_waiting_receive_starts<'a, T: Clone, L: CapacityLimiter<T>>(
    receiver: &'a mut Receiver<T, L>,
    recv: Recv<'a, T, L>,
)
    requires
        call_ensures(Receiver::<T, L>::recv, (receiver,), recv),
    ensures
        recv.listener is None,
        old(recv.receiver).pos() == old(receiver).pos(),
        old(recv.receiver).listener() == old(receiver).listener(),
{
}

/// One round of a waiting receive: it ends with a message, with the number of messages that were
/// missed, or with the end of the channel. On an open channel without anything for the receiver it
/// does not end; it starts to listen to the event that those who wait to receive are woken by, and
/// is to try again, or waits if it listens already.
pub proof fn law_waiting_receive_round<'a, T: Clone, L: CapacityLimiter<T>>(
    recv: &mut Recv<'a, T, L>,
    inner: &mut Inner<T, L>,
    step: Step<Result<T, RecvError>>,
)
    requires
        old(inner).wf(),
        old(inner)@.receivers.contains(old(recv).receiver.pos()),
        call_ensures(Recv::<T, L>::poll, (recv, inner), step),
    ensures
        final(inner).wf(),
        ({
            let pre = old(inner)@;
            let post = final(inner)@;
            let pos = old(recv).receiver.pos();
            let to = final(recv).receiver.pos();
            let last = pos == pre.head && pos < pre.sent.len() && forall|p: nat| #[trigger]
                pre.receivers.remove(pos).contains(p) ==> p > pos;
            &&& pos < pre.head ==> {
                &&& step matches Step::Ready(Err(RecvError::Overflowed(n))) && n == pre.head - pos
                &&& to == pre.head
            }
            &&& pre.head <= pos < pre.sent.len() ==> {
                &&& step matches Step::Ready(Ok(m)) && (if last {
                    m == pre.sent[pos as int]
                } else {
                    cloned(pre.sent[pos as int], m)
                })
                &&& to == pos + 1
            }
            &&& pos >= pre.sent.len() && pre.closed ==> {
                &&& step == Step::Ready(Err::<T, _>(RecvError::Closed))
                &&& to == pos
                &&& post == pre
            }
            &&& pos >= pre.sent.len() && !pre.closed ==> {
                &&& to == pos
                &&& if old(recv).listener is None {
                    &&& step is Retry
                    &&& final(recv).listener matches Some(l) && final(inner).recv_heard_by(l)
                    &&& post == Channel { recv_ops: pre.recv_ops.push(Signal::Listen), ..pre }
                } else {
                    &&& step is Wait
                    &&& final(recv).listener == old(recv).listener
                    &&& post == pre
                }
            }
            &&& pos < pre.sent.len() ==> post == Channel {
                head: if last {
                    pre.head + 1
                } else {
                    pre.head
                },
                limiter: post.limiter,
                receivers: pre.receivers.remove(pos).insert(to),
                send_ops: if last && !pre.overflow {
                    pre.send_ops.push(Signal::Notify(1))
                } else {
                    pre.send_ops
                },
                ..pre
            }
        }),
{
    let pre = old(inner)@;
    let pos = old(recv).receiver.pos();
    if pos < pre.sent.len() {
        law_receive_in_full(pre, pos, final(inner)@);
    }
}

/// One round of the stream of a receiver: it gives a message, goes on past messages that were
/// missed, and ends with the channel, never before. On an open channel without anything for the
/// receiver it starts to listen to the event that those who wait to receive are woken by, and is to
/// try again, or waits if it listens already.
pub proof fn law_stream_round<T: Clone, L: CapacityLimiter<T>>(
    receiver: &mut Receiver<T, L>,
    inner: &mut Inner<T, L>,
    step: Step<Option<T>>,
)
    requires
        old(inner).wf(),
        old(inner)@.receivers.contains(old(receiver).pos()),
        call_ensures(Receiver::<T, L>::poll_next, (receiver, inner), step),
    ensures
        final(inner).wf(),
        ({
            let pre = old(inner)@;
            let post = final(inner)@;
            let pos = old(receiver).pos();
            let to = final(receiver).pos();
            let last = pos == pre.head && pos < pre.sent.len() && forall|p: nat| #[trigger]
                pre.receivers.remove(pos).contains(p) ==> p > pos;
            &&& pos < pre.head ==> {
                &&& step is Retry
                &&& to == pre.head
                &&& final(receiver).listener() == old(receiver).listener()
            }
            &&& pre.head <= pos < pre.sent.len() ==> {
                &&& step matches Step::Ready(Some(m)) && (if last {
                    m == pre.sent[pos as int]
                } else {
                    cloned(pre.sent[pos as int], m)
                })
                &&& to == pos + 1
                &&& final(receiver).listener() is None
            }
            &&& pos >= pre.sent.len() && pre.closed ==> {
                &&& step == Step::Ready(None::<T>)
                &&& to == pos
                &&& final(receiver).listener() is None
                &&& post == pre
            }
            &&& pos >= pre.sent.len() && !pre.closed ==> {
                &&& to == pos
                &&& if old(receiver).listener() is None {
                    &&& step is Retry
                    &&& final(receiver).listener() matches Some(l) && final(inner).recv_heard_by(l)
                    &&& post == Channel { recv_ops: pre.recv_ops.push(Signal::Listen), ..pre }
                } else {
                    &&& step is Wait
                    &&& final(receiver).listener() == old(receiver).listener()
                    &&& post == pre
                }
            }
            &&& pos < pre.sent.len() ==> post == Channel {
                head: if last {
                    pre.head + 1
                } else {
                    pre.head
                },
                limiter: post.limiter,
                receivers: pre.receivers.remove(pos).insert(to),
                send_ops: if last && !pre.overflow {
                    pre.send_ops.push(Signal::Notify(1))
                } else {
                    pre.send_ops
                },
                ..pre
            }
        }),
{
    let pre = old(inner)@;
    let pos = old(receiver).pos();
    if pos < pre.sent.len() {
        law_receive_in_full(pre, pos, final(inner)@);
    }
}

/// Whoever waits for a channel waits for it whatever is done to it: a listener of its events stays
/// one through every operation of a handle.
pub proof fn law_listeners_stay<T: Clone, L: CapacityLimiter<T>>(
    sender: Sender<T, L>,
    receiver: &mut Receiver<T, L>,
    msg: T,
    sent: Result<Option<T>, TrySendError<T, L::Error>>,
    got: Result<T, TryRecvError>,
    done: bool,
    a: &mut Inner<T, L>,
    b: &mut Inner<T, L>,
    c: &mut Inner<T, L>,
    listener: EventListener,
)
    requires
        old(a).wf(),
        old(a)@.sent.len() < u64::MAX,
        call_ensures(Sender::<T, L>::try_broadcast, (&sender, a, msg), sent),
        old(b).wf(),
        old(b)@.receivers.contains(old(receiver).pos()),
        call_ensures(Receiver::<T, L>::try_recv, (receiver, b), got),
        old(c).wf(),
        call_ensures(Sender::<T, L>::close, (&sender, c), done),
    ensures
        old(a).send_heard_by(listener) ==> final(a).send_heard_by(listener),
        old(a).recv_heard_by(listener) ==> final(a).recv_heard_by(listener),
        old(b).send_heard_by(listener) ==> final(b).send_heard_by(listener),
        old(b).recv_heard_by(listener) ==> final(b).recv_heard_by(listener),
        old(c).send_heard_by(listener) ==> final(c).send_heard_by(listener),
        old(c).recv_heard_by(listener) ==> final(c).recv_heard_by(listener),
{
}

} // verus!
