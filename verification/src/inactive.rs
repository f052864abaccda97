//! Receivers that keep a channel open without receiving from it.
use crate::inner::Inner;
use crate::limiter::{CapacityLimiter, ElementCountLimiter};
use crate::receiver::Receiver;
use std::marker::PhantomData;
use vstd::prelude::*;

verus! {

/// An inactive  receiver.
///
/// An inactive receiver is a receiver that is unable to receive messages. It's only useful for
/// keeping a channel open even when no associated active receivers exist.
///
/// It goes only with the [`Inner`] of the channel it was made for: no other may be passed to it.
#[derive(Debug)]
pub struct InactiveReceiver<T, L: CapacityLimiter<T> = ElementCountLimiter> {
    channel: PhantomData<(T, L)>,
}

impl<T, L: CapacityLimiter<T>> InactiveReceiver<T, L> {
    /// The handle of an inactive receiver that the channel counts already.
    pub(crate) fn new() -> Self {
        InactiveReceiver { channel: PhantomData }
    }

    /// Convert to an activate [`Receiver`].
    ///
    /// Consumes `self`. Use [`InactiveReceiver::activate_cloned`] if you want to keep `self`.
    pub fn activate(self, inner: &mut Inner<T, L>) -> (receiver: Receiver<T, L>)
        requires
            old(inner).wf(),
            old(inner)@.receivers.len() < usize::MAX,
            old(inner)@.inactive > 0,
        ensures
            final(inner).wf(),
            old(inner).keeps_listeners(*final(inner)),
            final(inner)@ == old(inner)@.receiver_activates().inactive_leaves(),
            receiver.pos() == old(inner)@.tail(),
            receiver.listener() is None,
            receiver.takes_part(final(inner)@),
    {
        let receiver = self.activate_cloned(inner);
        self.drop(inner);
        receiver
    }

    /// Create an activate [`Receiver`] for the associated channel.
    pub fn activate_cloned(&self, inner: &mut Inner<T, L>) -> (receiver: Receiver<T, L>)
        requires
            old(inner).wf(),
            old(inner)@.receivers.len() < usize::MAX,
        ensures
            final(inner).wf(),
            old(inner).keeps_listeners(*final(inner)),
            final(inner)@ == old(inner)@.receiver_activates(),
            receiver.pos() == old(inner)@.tail(),
            receiver.listener() is None,
            receiver.takes_part(final(inner)@),
    {
        Receiver::new(inner.activate_receiver())
    }

    /// If overflow mode is enabled on this channel.
    pub fn overflow(&self, inner: &Inner<T, L>) -> (overflow: bool)
        ensures
            overflow == inner@.overflow,
    {
        inner.overflow()
    }

    /// Set overflow mode on the channel.
    ///
    /// When overflow mode is set, broadcasting to the channel will succeed even if the channel is
    /// full. It achieves that by removing the oldest message from the channel.
    pub fn set_overflow(&mut self, inner: &mut Inner<T, L>, overflow: bool)
        requires
            old(inner).wf(),
        ensures
            final(inner).wf(),
            old(inner).keeps_listeners(*final(inner)),
            final(inner)@ == old(inner)@.with_overflow(overflow),
    {
        inner.set_overflow(overflow);
    }

    /// Closes the channel.
    ///
    /// Returns `true` if this call has closed the channel and it was not closed already.
    ///
    /// The remaining messages can still be received.
    pub fn close(&self, inner: &mut Inner<T, L>) -> (closed: bool)
        requires
            old(inner).wf(),
        ensures
            final(inner).wf(),
            old(inner).keeps_listeners(*final(inner)),
            final(inner)@ == old(inner)@.closing(),
            closed == !old(inner)@.closed,
    {
        inner.close()
    }

    /// Returns `true` if the channel is closed.
    pub fn is_closed(&self, inner: &Inner<T, L>) -> (closed: bool)
        ensures
            closed == inner@.closed,
    {
        inner.is_closed()
    }

    /// Returns `true` if the channel is empty.
    pub fn is_empty(&self, inner: &Inner<T, L>) -> (empty: bool)
        requires
            inner.wf(),
        ensures
            empty == (inner@.queue().len() == 0),
    {
        inner.is_empty()
    }

    /// Returns `true` if the channel is full.
    pub fn is_full(&self, inner: &Inner<T, L>) -> (full: bool)
        requires
            inner.wf(),
        ensures
            inner@.limiter.full(inner@.queue(), full),
    {
        inner.is_full()
    }

    /// Returns the number of messages in the channel.
    pub fn len(&self, inner: &Inner<T, L>) -> (n: usize)
        requires
            inner.wf(),
        ensures
            n == inner@.queue().len(),
    {
        inner.len()
    }

    /// Returns the number of receivers for the channel.
    ///
    /// This does not include inactive receivers. Use [`InactiveReceiver::inactive_receiver_count`]
    /// if you're interested in that.
    pub fn receiver_count(&self, inner: &Inner<T, L>) -> (n: usize)
        requires
            inner.wf(),
        ensures
            n == inner@.receivers.len(),
    {
        inner.receiver_count()
    }

    /// Returns the number of inactive receivers for the channel.
    pub fn inactive_receiver_count(&self, inner: &Inner<T, L>) -> (n: usize)
        ensures
            n == inner@.inactive,
    {
        inner.inactive_receiver_count()
    }

    /// Returns the number of senders for the channel.
    pub fn sender_count(&self, inner: &Inner<T, L>) -> (n: usize)
        ensures
            n == inner@.senders,
    {
        inner.sender_count()
    }

    /// One more inactive receiver for the channel.
    pub fn clone(&self, inner: &mut Inner<T, L>) -> (inactive: Self)
        requires
            old(inner).wf(),
            old(inner)@.inactive < usize::MAX,
        ensures
            final(inner).wf(),
            old(inner).keeps_listeners(*final(inner)),
            final(inner)@ == old(inner)@.inactive_joins(),
    {
        inner.add_inactive();

        InactiveReceiver::new()
    }

    /// Takes this inactive receiver out of the channel, which closes if no receiver at all is
    /// left.
    pub fn drop(self, inner: &mut Inner<T, L>)
        requires
            old(inner).wf(),
            old(inner)@.inactive > 0,
        ensures
            final(inner).wf(),
            old(inner).keeps_listeners(*final(inner)),
            final(inner)@ == old(inner)@.inactive_leaves(),
    {
        inner.remove_inactive();
    }
}

impl<T> InactiveReceiver<T> {
    /// Returns the channel capacity.
    pub fn capacity(&self, inner: &Inner<T, ElementCountLimiter>) -> (capacity: usize)
        ensures
            capacity == inner@.limiter.0,
    {
        inner.limiter().0
    }

    /// Set the channel capacity.
    ///
    /// There are times when you need to change the channel's capacity after creating it. If the
    /// `new_cap` is less than the number of messages in the channel, the oldest messages will be
    /// dropped to shrink the channel.
    pub fn set_capacity(&mut self, inner: &mut Inner<T, ElementCountLimiter>, new_cap: usize)
        requires
            old(inner).wf(),
        ensures
            final(inner).wf(),
            old(inner).keeps_listeners(*final(inner)),
            final(inner)@ == old(inner)@.with_capacity(new_cap),
    {
        inner.set_capacity(new_cap);
    }
}

} // verus!
