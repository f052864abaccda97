//! The sending side of a channel.
use crate::channel::{adjust_outcome, broadcast_outcome, Channel};
use crate::errors::{SendError, TrySendError};
use crate::inner::Inner;
use crate::limiter::{AdjustableCapacityLimiter, CapacityLimiter, ElementCountLimiter};
use crate::step::Step;
use event_listener::EventListener;
use std::marker::PhantomData;
use vstd::prelude::*;

verus! {

/// The sending side of the broadcast channel.
///
/// When all senders associated with a channel are dropped, the channel becomes closed.
///
/// The channel can also be closed manually by calling [`Sender::close`].
///
/// It goes only with the [`Inner`] of the channel it was made for: no other may be passed to it.
#[derive(Debug)]
pub struct Sender<T, L: CapacityLimiter<T> = ElementCountLimiter> {
    channel: PhantomData<(T, L)>,
}

impl<T> Sender<T> {
    /// Returns the channel capacity.
    pub fn capacity(&self, inner: &Inner<T, ElementCountLimiter>) -> (capacity: usize)
        ensures
            capacity == inner@.limiter.0,
    {
        inner.limiter().0
    }

    /// Set the channel capacity.
    ///
    /// There are times when you need to change the channel's capacity after creating it. If the
    /// `new_cap` is less than the number of messages in the channel, the oldest messages will be
    /// dropped to shrink the channel.
    pub fn set_capacity(&mut self, inner: &mut Inner<T, ElementCountLimiter>, new_cap: usize)
        requires
            old(inner).wf(),
        ensures
            final(inner).wf(),
            old(inner).keeps_listeners(*final(inner)),
            final(inner)@ == old(inner)@.with_capacity(new_cap),
    {
        inner.set_capacity(new_cap);
    }
}

impl<T, L: CapacityLimiter<T>> Sender<T, L> {
    /// The handle of a sender that the channel counts already.
    pub(crate) fn new() -> Self {
        Sender { channel: PhantomData }
    }

    /// If overflow mode is enabled on this channel.
    pub fn overflow(&self, inner: &Inner<T, L>) -> (overflow: bool)
        ensures
            overflow == inner@.overflow,
    {
        inner.overflow()
    }

    /// Set overflow mode on the channel.
    ///
    /// When overflow mode is set, broadcasting to the channel will succeed even if the channel is
    /// full. It achieves that by removing the oldest message from the channel.
    pub fn set_overflow(&mut self, inner: &mut Inner<T, L>, overflow: bool)
        requires
            old(inner).wf(),
        ensures
            final(inner).wf(),
            old(inner).keeps_listeners(*final(inner)),
            final(inner)@ == old(inner)@.with_overflow(overflow),
    {
        inner.set_overflow(overflow);
    }

    /// Closes the channel.
    ///
    /// Returns `true` if this call has closed the channel and it was not closed already.
    ///
    /// The remaining messages can still be received.
    pub fn close(&self, inner: &mut Inner<T, L>) -> (closed: bool)
        requires
            old(inner).wf(),
        ensures
            final(inner).wf(),
            old(inner).keeps_listeners(*final(inner)),
            final(inner)@ == old(inner)@.closing(),
            closed == !old(inner)@.closed,
    {
        inner.close()
    }

    /// Returns `true` if the channel is closed.
    pub fn is_closed(&self, inner: &Inner<T, L>) -> (closed: bool)
        ensures
            closed == inner@.closed,
    {
        inner.is_closed()
    }

    /// Returns `true` if the channel is empty.
    pub fn is_empty(&self, inner: &Inner<T, L>) -> (empty: bool)
        requires
            inner.wf(),
        ensures
            empty == (inner@.queue().len() == 0),
    {
        inner.is_empty()
    }

    /// Returns `true` if the channel is full.
    pub fn is_full(&self, inner: &Inner<T, L>) -> (full: bool)
        requires
            inner.wf(),
        ensures
            inner@.limiter.full(inner@.queue(), full),
    {
        inner.is_full()
    }

    /// Returns the number of messages in the channel.
    pub fn len(&self, inner: &Inner<T, L>) -> (n: usize)
        requires
            inner.wf(),
        ensures
            n == inner@.queue().len(),
    {
        inner.len()
    }

    /// Returns the number of receivers for the channel.
    ///
    /// This does not include inactive receivers. Use [`Sender::inactive_receiver_count`] if you
    /// are interested in that.
    pub fn receiver_count(&self, inner: &Inner<T, L>) -> (n: usize)
        requires
            inner.wf(),
        ensures
            n == inner@.receivers.len(),
    {
        inner.receiver_count()
    }

    /// Returns the number of inactive receivers for the channel.
    pub fn inactive_receiver_count(&self, inner: &Inner<T, L>) -> (n: usize)
        ensures
            n == inner@.inactive,
    {
        inner.inactive_receiver_count()
    }

    /// Returns the number of senders for the channel.
    pub fn sender_count(&self, inner: &Inner<T, L>) -> (n: usize)
        ensures
            n == inner@.senders,
    {
        inner.sender_count()
    }

    /// One more sender for the channel.
    pub fn clone(&self, inner: &mut Inner<T, L>) -> (sender: Self)
        requires
            old(inner).wf(),
            old(inner)@.senders < usize::MAX,
        ensures
            final(inner).wf(),
            old(inner).keeps_listeners(*final(inner)),
            final(inner)@ == old(inner)@.sender_joins(),
    {
        inner.add_sender();

        Sender::new()
    }

    /// Takes this sender out of the channel. The last sender closes it.
    pub fn drop(self, inner: &mut Inner<T, L>)
        requires
            old(inner).wf(),
            old(inner)@.senders > 0,
        ensures
            final(inner).wf(),
            old(inner).keeps_listeners(*final(inner)),
            final(inner)@ == old(inner)@.sender_leaves(),
    {
        inner.remove_sender();
    }
}

impl<T, L: CapacityLimiter<T> + Clone> Sender<T, L> {
    /// Returns the current channel capacity limiter.
    pub fn capacity_limiter(&self, inner: &Inner<T, L>) -> (limiter: L)
        ensures
            cloned(inner@.limiter, limiter),
    {
        inner.limiter().clone()
    }
}

impl<T, L: AdjustableCapacityLimiter<T>> Sender<T, L> {
    /// Adjust the channel capacity.
    ///
    /// There are times when you need to change the channel's capacity after creating it. If
    /// needed, the oldest messages will be dropped to shrink the channel.
    pub fn adjust_capacity(&mut self, inner: &mut Inner<T, L>, adjustment: L::Adjustment)
        requires
            old(inner).wf(),
        ensures
            final(inner).wf(),
            old(inner).keeps_listeners(*final(inner)),
            exists|result: Result<(), L::Error>|
                adjust_outcome(old(inner)@, adjustment, final(inner)@, result),
    {
        let _ = inner.adjust_capacity(adjustment);
    }
}

impl<T: Clone, L: CapacityLimiter<T>> Sender<T, L> {
    /// Broadcasts a message on the channel.
    ///
    /// If the channel is full, this operation waits until there is space for a message unless
    /// overflow mode (set through [`Sender::set_overflow`]) is enabled. If the overflow mode is
    /// enabled it removes the oldest message from the channel to make room for the new message.
    /// The removed message is returned to the caller.
    ///
    /// If the channel is closed, this operation ends with an error.
    pub fn broadcast(&self, msg: T) -> (send: Send<'_, T, L>)
        ensures
            send == (Send { sender: self, listener: None, msg: Some(msg) }),
    {
        Send { sender: self, listener: None, msg: Some(msg) }
    }

    /// Attempts to broadcast a message on the channel.
    ///
    /// If the channel is full, this method returns an error unless overflow mode (set through
    /// [`Sender::set_overflow`]) is enabled. If the overflow mode is enabled, it removes the
    /// oldest message from the channel to make room for the new message. The removed message
    /// is returned to the caller.
    ///
    /// If the channel is closed, this method returns an error.
    pub fn try_broadcast(&self, inner: &mut Inner<T, L>, msg: T) -> (result: Result<
        Option<T>,
        TrySendError<T, L::Error>,
    >)
        requires
            old(inner).wf(),
            old(inner)@.tail() < u64::MAX,
        ensures
            final(inner).wf(),
            old(inner).keeps_listeners(*final(inner)),
            broadcast_outcome(old(inner)@, msg, final(inner)@, result),
    {
        inner.try_broadcast(msg)
    }
}

/// A waiting send, made by [`Sender::broadcast`].
#[derive(Debug)]
pub struct Send<'a, T, L: CapacityLimiter<T> = ElementCountLimiter> {
    /// Who sends.
    pub sender: &'a Sender<T, L>,
    /// Listens for room in the channel, while this operation waits.
    pub listener: Option<EventListener>,
    /// The message, until the operation is over.
    pub msg: Option<T>,
}

/// What one round of a waiting send makes of the channel `pre`, and of itself, given how its
/// attempt to send came out as `result` and left the channel as `mid`.
///
/// A success wakes the next waiting sender, unless the channel is full now. A failure that may
/// pass has the operation listen, and try again before it waits.
pub open spec fn send_round<'a, T, L: CapacityLimiter<T>>(
    pre: Send<'a, T, L>,
    mid: Channel<T, L>,
    result: Result<Option<T>, TrySendError<T, L::Error>>,
    post: Send<'a, T, L>,
    channel: Channel<T, L>,
    step: Step<Result<Option<T>, SendError<T, L::Error>>>,
) -> bool {
    match result {
        Ok(evicted) => {
            &&& step == Step::Ready(Ok::<_, SendError<T, L::Error>>(evicted))
            &&& post == Send { msg: None, ..pre }
            &&& {
                ||| mid.limiter.full(mid.queue(), true) && channel == mid
                ||| mid.limiter.full(mid.queue(), false) && channel == mid.sender_woken()
            }
        },
        Err(error) => match error.send_error() {
            Err(e) => {
                &&& step == Step::Ready(Err::<Option<T>, _>(e))
                &&& post == Send { msg: None, ..pre }
                &&& channel == mid
            },
            Ok(msg) => {
                &&& post.sender == pre.sender
                &&& post.msg == Some(msg)
                &&& if pre.listener is None {
                    step is Retry && post.listener is Some && channel == mid.send_listens()
                } else {
                    step is Wait && post.listener == pre.listener && channel == mid
                }
            },
        },
    }
}

impl<'a, T: Clone, L: CapacityLimiter<T>> Send<'a, T, L> {
    /// One round of the operation: an attempt to send and, where it fails for now, a listener.
    pub fn poll(&mut self, inner: &mut Inner<T, L>) -> (step: Step<
        Result<Option<T>, SendError<T, L::Error>>,
    >)
        requires
            old(self).msg is Some,
            old(inner).wf(),
            old(inner)@.tail() < u64::MAX,
        ensures
            final(inner).wf(),
            old(inner).keeps_listeners(*final(inner)),
            old(inner).wakes_send(old(self).listener) ==> final(inner).wakes_send(
                final(self).listener,
            ),
            exists|mid: Channel<T, L>, result: Result<Option<T>, TrySendError<T, L::Error>>|
                {
                    &&& #[trigger] broadcast_outcome(
                        old(inner)@,
                        old(self).msg->0,
                        mid,
                        result,
                    )
                    &&& send_round(*old(self), mid, result, *final(self), final(inner)@, step)
                },
    {
        let msg = self.msg.take().unwrap();

        // Attempt to send a message.
        let result = self.sender.try_broadcast(inner, msg);
        let ghost mid = inner@;
        let ghost outcome = result;
        assert(broadcast_outcome(old(inner)@, old(self).msg->0, mid, outcome));
        match result {
            Ok(evicted) => {
                if !inner.is_full() {
                    // Notify the next awaiting sender.
                    inner.notify_sender();
                }
                return Step::Ready(Ok(evicted));
            },
            Err(e) => match e.map_send_error() {
                Ok(msg) => {
                    self.msg = Some(msg);
                },
                Err(e) => {
                    return Step::Ready(Err(e));
                },
            },
        }

        // Sending failed - now start listening for notifications or wait for one.
        if self.listener.is_none() {
            // Start listening and then try sending again.
            self.listener = Some(inner.listen_send());
            Step::Retry
        } else {
            // Wait for a notification.
            Step::Wait
        }
    }
}

} // verus!
