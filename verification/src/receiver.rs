//! The receiving side of a channel.
use crate::channel::{adjust_outcome, left, received, steps_to_tail, Channel};
use crate::errors::{RecvError, TryRecvError};
use crate::inactive::InactiveReceiver;
use crate::inner::Inner;
use crate::limiter::{AdjustableCapacityLimiter, CapacityLimiter, ElementCountLimiter};
use crate::step::Step;
use event_listener::EventListener;
use std::marker::PhantomData;
use vstd::prelude::*;

verus! {

/// The receiving side of a channel.
///
/// When all (active) receivers associated with a channel are dropped, the channel becomes closed.
/// You can deactivate a receiver using [`Receiver::deactivate`] if you would like the channel to
/// remain open without keeping active receivers around.
///
/// It goes only with the [`Inner`] of the channel it was made for: no other may be passed to it.
#[derive(Debug)]
pub struct Receiver<T, L: CapacityLimiter<T> = ElementCountLimiter> {
    pos: u64,
    /// Listens for a send or close event to unblock this stream.
    listener: Option<EventListener>,
    channel: PhantomData<(T, L)>,
}

impl<T> Receiver<T> {
    /// Returns the channel capacity.
    pub fn capacity(&self, inner: &Inner<T, ElementCountLimiter>) -> (capacity: usize)
        ensures
            capacity == inner@.limiter.0,
    {
        inner.limiter().0
    }

    /// Set the channel capacity.
    ///
    /// There are times when you need to change the channel's capacity after creating it. If the
    /// `new_cap` is less than the number of messages in the channel, the oldest messages will be
    /// dropped to shrink the channel.
    pub fn set_capacity(&mut self, inner: &mut Inner<T, ElementCountLimiter>, new_cap: usize)
        requires
            old(inner).wf(),
        ensures
            final(inner).wf(),
            old(inner).keeps_listeners(*final(inner)),
            final(inner)@ == old(inner)@.with_capacity(new_cap),
            *final(self) == *old(self),
    {
        inner.set_capacity(new_cap);
    }
}

impl<T, L: CapacityLimiter<T>> Receiver<T, L> {
    /// The number of the message that this receiver reads next.
    pub closed spec fn pos(self) -> nat {
        self.pos as nat
    }

    /// What this receiver listens with while its stream waits.
    pub closed spec fn listener(self) -> Option<EventListener> {
        self.listener
    }

    /// The channel counts this receiver.
    pub open spec fn takes_part(self, channel: Channel<T, L>) -> bool {
        channel.receivers.contains(self.pos())
    }

    /// The handle of a receiver that the channel counts at `pos` already.
    pub(crate) fn new(pos: u64) -> (receiver: Self)
        ensures
            receiver.pos() == pos,
            receiver.listener() is None,
    {
        Receiver { pos, listener: None, channel: PhantomData }
    }

    /// The listener of the stream, for whoever waits for it.
    pub fn listener_mut(&mut self) -> (listener: &mut Option<EventListener>)
        ensures
            *listener == old(self).listener(),
            final(self).listener() == *final(listener),
            final(self).pos() == old(self).pos(),
    {
        &mut self.listener
    }

    /// If overflow mode is enabled on this channel.
    pub fn overflow(&self, inner: &Inner<T, L>) -> (overflow: bool)
        ensures
            overflow == inner@.overflow,
    {
        inner.overflow()
    }

    /// Set overflow mode on the channel.
    ///
    /// When overflow mode is set, broadcasting to the channel will succeed even if the channel is
    /// full. It achieves that by removing the oldest message from the channel.
    pub fn set_overflow(&mut self, inner: &mut Inner<T, L>, overflow: bool)
        requires
            old(inner).wf(),
        ensures
            final(inner).wf(),
            old(inner).keeps_listeners(*final(inner)),
            final(inner)@ == old(inner)@.with_overflow(overflow),
            *final(self) == *old(self),
    {
        inner.set_overflow(overflow);
    }

    /// Closes the channel.
    ///
    /// Returns `true` if this call has closed the channel and it was not closed already.
    ///
    /// The remaining messages can still be received.
    pub fn close(&self, inner: &mut Inner<T, L>) -> (closed: bool)
        requires
            old(inner).wf(),
        ensures
            final(inner).wf(),
            old(inner).keeps_listeners(*final(inner)),
            final(inner)@ == old(inner)@.closing(),
            closed == !old(inner)@.closed,
    {
        inner.close()
    }

    /// Returns `true` if the channel is closed.
    pub fn is_closed(&self, inner: &Inner<T, L>) -> (closed: bool)
        ensures
            closed == inner@.closed,
    {
        inner.is_closed()
    }

    /// Returns `true` if the channel is empty.
    pub fn is_empty(&self, inner: &Inner<T, L>) -> (empty: bool)
        requires
            inner.wf(),
        ensures
            empty == (inner@.queue().len() == 0),
    {
        inner.is_empty()
    }

    /// Returns `true` if the channel is full.
    pub fn is_full(&self, inner: &Inner<T, L>) -> (full: bool)
        requires
            inner.wf(),
        ensures
            inner@.limiter.full(inner@.queue(), full),
    {
        inner.is_full()
    }

    /// Returns the number of messages in the channel.
    pub fn len(&self, inner: &Inner<T, L>) -> (n: usize)
        requires
            inner.wf(),
        ensures
            n == inner@.queue().len(),
    {
        inner.len()
    }

    /// Returns the number of receivers for the channel.
    ///
    /// This does not include inactive receivers. Use [`Receiver::inactive_receiver_count`] if you
    /// are interested in that.
    pub fn receiver_count(&self, inner: &Inner<T, L>) -> (n: usize)
        requires
            inner.wf(),
        ensures
            n == inner@.receivers.len(),
    {
        inner.receiver_count()
    }

    /// Returns the number of inactive receivers for the channel.
    pub fn inactive_receiver_count(&self, inner: &Inner<T, L>) -> (n: usize)
        ensures
            n == inner@.inactive,
    {
        inner.inactive_receiver_count()
    }

    /// Returns the number of senders for the channel.
    pub fn sender_count(&self, inner: &Inner<T, L>) -> (n: usize)
        ensures
            n == inner@.senders,
    {
        inner.sender_count()
    }

    /// Returns `true` if the channel is closed and holds no more messages, so that the stream of
    /// messages has come to its end.
    pub fn is_terminated(&self, inner: &Inner<T, L>) -> (terminated: bool)
        requires
            inner.wf(),
        ensures
            terminated == (inner@.closed && inner@.queue().len() == 0),
    {
        inner.is_closed() && inner.is_empty()
    }

    /// Downgrade to a [`InactiveReceiver`].
    ///
    /// An inactive receiver is one that can not and does not receive any messages. Its only purpose
    /// is keep the associated channel open even when there are no (active) receivers. An inactive
    /// receiver can be upgraded into a [`Receiver`] using [`InactiveReceiver::activate`] or
    /// [`InactiveReceiver::activate_cloned`].
    ///
    /// [`Sender::try_broadcast`](crate::Sender::try_broadcast) will return
    /// [`TrySendError::Inactive`](crate::TrySendError::Inactive) if only inactive receivers exists
    /// for the associated channel and [`Sender::broadcast`](crate::Sender::broadcast) will wait
    /// until an active receiver is available.
    pub fn deactivate(self, inner: &mut Inner<T, L>) -> (inactive: InactiveReceiver<T, L>)
        requires
            old(inner).wf(),
            self.takes_part(old(inner)@),
            old(inner)@.inactive < usize::MAX,
        ensures
            final(inner).wf(),
            old(inner).keeps_listeners(*final(inner)),
            left(
                old(inner)@.inactive_joins(),
                self.pos(),
                steps_to_tail(old(inner)@, self.pos()),
                final(inner)@,
            ),
    {
        inner.add_inactive();
        inner.remove_receiver(self.pos);

        InactiveReceiver::new()
    }

    /// One more receiver for the channel. It does not see messages that have been sent before.
    pub fn clone(&self, inner: &mut Inner<T, L>) -> (receiver: Self)
        requires
            old(inner).wf(),
            old(inner)@.receivers.len() < usize::MAX,
        ensures
            final(inner).wf(),
            old(inner).keeps_listeners(*final(inner)),
            final(inner)@ == old(inner)@.receiver_joins(),
            receiver.pos() == old(inner)@.tail(),
            receiver.listener() is None,
            receiver.takes_part(final(inner)@),
    {
        Receiver::new(inner.add_receiver())
    }

    /// Takes this receiver out of the channel. It gives up all messages that are left for it, and
    /// the channel closes if no receiver at all is left.
    pub fn drop(self, inner: &mut Inner<T, L>)
        requires
            old(inner).wf(),
            self.takes_part(old(inner)@),
        ensures
            final(inner).wf(),
            old(inner).keeps_listeners(*final(inner)),
            left(
                old(inner)@,
                self.pos(),
                steps_to_tail(old(inner)@, self.pos()),
                final(inner)@,
            ),
    {
        inner.remove_receiver(self.pos);
    }
}

impl<T: Clone, L: CapacityLimiter<T>> Receiver<T, L> {
    /// Receives a message from the channel.
    ///
    /// If the channel is empty, this operation waits until there is a message.
    ///
    /// If the channel is closed, this operation receives a message or ends with an error if there
    /// are no more messages.
    ///
    /// If this receiver has missed a message (only possible if overflow mode is enabled), then
    /// this operation ends with an error and readjusts its cursor to point to the first available
    /// message.
    pub fn recv(&mut self) -> (recv: Recv<'_, T, L>)
        ensures
            *recv.receiver == *old(self),
            *final(recv.receiver) == *final(self),
            recv.listener is None,
    {
        Recv { receiver: self, listener: None }
    }

    /// Attempts to receive a message from the channel.
    ///
    /// If the channel is empty or closed, this method returns an error.
    ///
    /// If this receiver has missed a message (only possible if overflow mode is enabled), then
    /// this method returns an error and readjusts its cursor to point to the first available
    /// message.
    pub fn try_recv(&mut self, inner: &mut Inner<T, L>) -> (result: Result<T, TryRecvError>)
        requires
            old(inner).wf(),
            old(self).takes_part(old(inner)@),
        ensures
            final(inner).wf(),
            old(inner).keeps_listeners(*final(inner)),
            final(self).takes_part(final(inner)@),
            received(old(inner)@, old(self).pos(), final(inner)@),
            final(self).pos() == old(inner)@.next(old(self).pos()),
            final(self).listener() == old(self).listener(),
            match result {
                Ok(m) => {
                    &&& old(inner)@.reads(old(self).pos()) is Ok
                    &&& copied(old(inner)@, old(self).pos(), m)
                },
                Err(e) => old(inner)@.reads(old(self).pos()) == Err::<T, _>(e),
            },
    {
        match inner.try_recv_at(&mut self.pos) {
            Ok(Ok(msg)) => Ok(msg),
            Ok(Err(msg)) => Ok(msg.clone()),
            Err(e) => Err(e),
        }
    }

    /// One round of the stream of messages: an attempt to receive and, where there is nothing to
    /// receive yet, a listener. The stream goes on past messages that were missed, and ends with
    /// the channel.
    pub fn poll_next(&mut self, inner: &mut Inner<T, L>) -> (step: Step<Option<T>>)
        requires
            old(inner).wf(),
            old(self).takes_part(old(inner)@),
        ensures
            final(inner).wf(),
            old(inner).keeps_listeners(*final(inner)),
            old(inner).wakes_recv(old(self).listener()) ==> final(inner).wakes_recv(
                final(self).listener(),
            ),
            final(self).takes_part(final(inner)@),
            final(self).pos() == old(inner)@.next(old(self).pos()),
            match old(inner)@.reads(old(self).pos()) {
                Ok(_) => {
                    &&& step matches Step::Ready(Some(m)) && copied(
                        old(inner)@,
                        old(self).pos(),
                        m,
                    )
                    &&& final(self).listener() is None
                    &&& received(old(inner)@, old(self).pos(), final(inner)@)
                },
                Err(TryRecvError::Closed) => {
                    &&& step == Step::Ready(None::<T>)
                    &&& final(self).listener() is None
                    &&& final(inner)@ == old(inner)@
                },
                Err(TryRecvError::Overflowed(_)) => {
                    &&& step is Retry
                    &&& final(self).listener() == old(self).listener()
                    &&& received(old(inner)@, old(self).pos(), final(inner)@)
                },
                Err(TryRecvError::Empty) => if old(self).listener() is None {
                    &&& step is Retry
                    &&& final(self).listener() is Some
                    &&& final(inner)@ == old(inner)@.recv_listens()
                } else {
                    &&& step is Wait
                    &&& final(self).listener() == old(self).listener()
                    &&& final(inner)@ == old(inner)@
                },
            },
    {
        // Attempt to receive a message.
        match self.try_recv(inner) {
            Ok(msg) => {
                // The stream is not blocked on an event - drop the listener.
                self.listener = None;
                return Step::Ready(Some(msg));
            },
            Err(TryRecvError::Closed) => {
                // The stream is not blocked on an event - drop the listener.
                self.listener = None;
                assert(inner@ =~= old(inner)@);
                return Step::Ready(None);
            },
            Err(TryRecvError::Overflowed(_)) => {
                return Step::Retry;
            },
            Err(TryRecvError::Empty) => {},
        }
        assert(inner@ =~= old(inner)@);

        // Receiving failed - now start listening for notifications or wait for one.
        if self.listener.is_none() {
            // Start listening and then try receiving again.
            self.listener = Some(inner.listen_recv());
            Step::Retry
        } else {
            // The listener has to be polled.
            Step::Wait
        }
    }
}

/// `msg` is what a receiver at `pos` may get as the message there: the message itself if it is
/// the last one to read it, and a clone of it otherwise.
pub open spec fn copied<T: Clone, L>(channel: Channel<T, L>, pos: nat, msg: T) -> bool {
    if channel.releases(pos) {
        msg == channel.sent[pos as int]
    } else {
        cloned(channel.sent[pos as int], msg)
    }
}

impl<T, L: CapacityLimiter<T> + Clone> Receiver<T, L> {
    /// Returns the current channel capacity limiter.
    pub fn capacity_limiter(&self, inner: &Inner<T, L>) -> (limiter: L)
        ensures
            cloned(inner@.limiter, limiter),
    {
        inner.limiter().clone()
    }
}

impl<T, L: AdjustableCapacityLimiter<T>> Receiver<T, L> {
    /// Adjust the channel capacity.
    ///
    /// There are times when you need to change the channel's capacity after creating it. If
    /// needed, the oldest messages will be dropped to shrink the channel.
    pub fn adjust_capacity(&mut self, inner: &mut Inner<T, L>, adjustment: L::Adjustment)
        requires
            old(inner).wf(),
        ensures
            final(inner).wf(),
            old(inner).keeps_listeners(*final(inner)),
            exists|result: Result<(), L::Error>|
                adjust_outcome(old(inner)@, adjustment, final(inner)@, result),
            *final(self) == *old(self),
    {
        let _ = inner.adjust_capacity(adjustment);
    }
}

/// A waiting receive, made by [`Receiver::recv`].
#[derive(Debug)]
pub struct Recv<'a, T, L: CapacityLimiter<T> = ElementCountLimiter> {
    /// Who receives.
    pub receiver: &'a mut Receiver<T, L>,
    /// Listens for a message, while this operation waits.
    pub listener: Option<EventListener>,
}

impl<'a, T: Clone, L: CapacityLimiter<T>> Recv<'a, T, L> {
    /// One round of the operation: an attempt to receive and, where there is nothing to receive
    /// yet, a listener.
    pub fn poll(&mut self, inner: &mut Inner<T, L>) -> (step: Step<Result<T, RecvError>>)
        requires
            old(inner).wf(),
            old(self).receiver.takes_part(old(inner)@),
        ensures
            final(inner).wf(),
            old(inner).keeps_listeners(*final(inner)),
            old(inner).wakes_recv(old(self).listener) ==> final(inner).wakes_recv(
                final(self).listener,
            ),
            final(self).receiver.takes_part(final(inner)@),
            final(self).receiver.pos() == old(inner)@.next(old(self).receiver.pos()),
            final(self).receiver.listener() == old(self).receiver.listener(),
            *final(final(self).receiver) == *final(old(self).receiver),
            match old(inner)@.reads(old(self).receiver.pos()) {
                Ok(_) => {
                    &&& step matches Step::Ready(Ok(m)) && copied(
                        old(inner)@,
                        old(self).receiver.pos(),
                        m,
                    )
                    &&& final(self).listener == old(self).listener
                    &&& received(old(inner)@, old(self).receiver.pos(), final(inner)@)
                },
                Err(TryRecvError::Closed) => {
                    &&& step == Step::Ready(Err::<T, _>(RecvError::Closed))
                    &&& final(self).listener == old(self).listener
                    &&& final(inner)@ == old(inner)@
                },
                Err(TryRecvError::Overflowed(n)) => {
                    &&& step == Step::Ready(Err::<T, _>(RecvError::Overflowed(n)))
                    &&& final(self).listener == old(self).listener
                    &&& received(old(inner)@, old(self).receiver.pos(), final(inner)@)
                },
                Err(TryRecvError::Empty) => if old(self).listener is None {
                    &&& step is Retry
                    &&& final(self).listener is Some
                    &&& final(inner)@ == old(inner)@.recv_listens()
                } else {
                    &&& step is Wait
                    &&& final(self).listener == old(self).listener
                    &&& final(inner)@ == old(inner)@
                },
            },
    {
        // Attempt to receive a message.
        match self.receiver.try_recv(inner) {
            Ok(msg) => {
                return Step::Ready(Ok(msg));
            },
            Err(TryRecvError::Closed) => {
                assert(inner@ =~= old(inner)@);
                return Step::Ready(Err(RecvError::Closed));
            },
            Err(TryRecvError::Overflowed(n)) => {
                return Step::Ready(Err(RecvError::Overflowed(n)));
            },
            Err(TryRecvError::Empty) => {},
        }
        assert(inner@ =~= old(inner)@);

        // Receiving failed - now start listening for notifications or wait for one.
        if self.listener.is_none() {
            // Start listening and then try receiving again.
            self.listener = Some(inner.listen_recv());
            Step::Retry
        } else {
            // Wait for a notification.
            Step::Wait
        }
    }
}

} // verus!
