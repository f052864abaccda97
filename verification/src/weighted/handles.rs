//! The senders and receivers of a weighted channel.
use crate::errors::{RecvError, SendError, TryRecvError, TrySendError};
use crate::step::Step;
use crate::weighted::channel::WeightedChannel;
use crate::weighted::inner::Inner;
use crate::weighted::scale::{Scale, Weight};
use event_listener::EventListener;
use std::marker::PhantomData;
use vstd::prelude::*;

verus! {

/// The sending side of the broadcast channel.
///
/// It goes only with the [`Inner`] of the channel it was made for: no other may be passed to it.
#[derive(Debug)]
pub struct Sender<T, S: Scale<T>> {
    channel: PhantomData<(T, S)>,
}

/// The receiving side of the broadcast channel.
///
/// It goes only with the [`Inner`] of the channel it was made for: no other may be passed to it.
#[derive(Debug)]
pub struct Receiver<T, S: Scale<T>> {
    pos: u64,
    channel: PhantomData<(T, S)>,
}

/// Create a new broadcast channel with the given scale and capacity.
pub fn weighted_broadcaster<T, S: Scale<T>>(scale: S, capacity: S::Weight) -> (created: (
    Inner<T, S>,
    Sender<T, S>,
    Receiver<T, S>,
))
    ensures
        created.0.wf(),
        created.0@ == WeightedChannel::<T, S>::created(scale, capacity.amount()),
        created.2.pos() == 0,
        created.2.takes_part(created.0@),
{
    (
        Inner::new(scale, capacity),
        Sender { channel: PhantomData },
        Receiver { pos: 0, channel: PhantomData },
    )
}

impl<T, S: Scale<T>> Sender<T, S> {
    /// Return a new sender attached to this channel.
    ///
    /// This is identical to [`Self::clone`]
    pub fn new_sender(&self, inner: &mut Inner<T, S>) -> (sender: Sender<T, S>)
        requires
            old(inner).wf(),
            old(inner)@.senders < usize::MAX,
        ensures
            final(inner).wf(),
            old(inner).keeps_listeners(*final(inner)),
            final(inner)@ == old(inner)@.sender_joins(),
    {
        inner.new_sender();
        Sender { channel: PhantomData }
    }

    /// Return a new receiver attached to this channel.
    ///
    /// The new receiver will start with no elements pending.
    ///
    /// Note: this will not re-open a channel if it was closed due to all receivers being dropped.
    pub fn new_receiver(&self, inner: &mut Inner<T, S>) -> (receiver: Receiver<T, S>)
        requires
            old(inner).wf(),
            old(inner)@.receivers.len() < usize::MAX,
        ensures
            final(inner).wf(),
            old(inner).keeps_listeners(*final(inner)),
            final(inner)@ == old(inner)@.receiver_joins(),
            receiver.pos() == old(inner)@.tail(),
            receiver.takes_part(final(inner)@),
    {
        Receiver { pos: inner.new_receiver(), channel: PhantomData }
    }

    /// Broadcasts a message on the channel.
    pub fn broadcast(&self, msg: T) -> (send: Send<T, S>)
        ensures
            send.item() == Some(msg),
            send.waiter() is None,
    {
        Send { item: Some(msg), waiter: None, scale: PhantomData }
    }

    /// Attempts to broadcast a message on the channel.
    pub fn try_broadcast(&self, inner: &mut Inner<T, S>, msg: T) -> (result: Result<
        (),
        TrySendError<T>,
    >)
        requires
            old(inner).wf(),
            old(inner)@.tail() < u64::MAX,
        ensures
            final(inner).wf(),
            old(inner).keeps_listeners(*final(inner)),
            final(inner)@ == old(inner)@.after_send(msg),
            result == old(inner)@.send_result(msg),
    {
        inner.try_send(msg)
    }

    /// If overflow mode is enabled on this channel.
    pub fn overflow(&self, inner: &Inner<T, S>) -> (overflow: bool)
        ensures
            overflow == inner@.overflow,
    {
        inner.overflow()
    }

    /// Set overflow mode on the channel.
    pub fn set_overflow(&self, inner: &mut Inner<T, S>, overflow: bool)
        requires
            old(inner).wf(),
        ensures
            final(inner).wf(),
            old(inner).keeps_listeners(*final(inner)),
            final(inner)@ == old(inner)@.with_overflow(overflow),
    {
        inner.set_overflow(overflow);
    }

    /// Closes the channel.
    pub fn close(&self, inner: &mut Inner<T, S>)
        requires
            old(inner).wf(),
        ensures
            final(inner).wf(),
            old(inner).keeps_listeners(*final(inner)),
            final(inner)@ == old(inner)@.closing(),
    {
        inner.close();
    }

    /// Return the current amount of space in the channel.
    pub fn space(&self, inner: &Inner<T, S>) -> (space: S::Weight)
        ensures
            space.amount() == inner@.space,
    {
        inner.space()
    }

    /// Add space to the channel.
    pub fn add_space(&self, inner: &mut Inner<T, S>, weight: S::Weight)
        requires
            old(inner).wf(),
            old(inner)@.space + old(inner)@.load() + weight.amount() <= S::Weight::limit(),
        ensures
            final(inner).wf(),
            old(inner).keeps_listeners(*final(inner)),
            final(inner)@ == old(inner)@.with_space(old(inner)@.space + weight.amount()),
    {
        inner.add_space(weight);
    }

    /// Remove space from the channel.
    ///
    /// Returns true if the space was removed or false if there was less space in the channel than
    /// the amount to remove (in which case the space is unchanged).
    pub fn remove_space(&self, inner: &mut Inner<T, S>, weight: S::Weight) -> (removed: bool)
        requires
            old(inner).wf(),
        ensures
            final(inner).wf(),
            old(inner).keeps_listeners(*final(inner)),
            removed == (weight.amount() <= old(inner)@.space),
            final(inner)@ == (if removed {
                old(inner)@.with_space((old(inner)@.space - weight.amount()) as nat)
            } else {
                old(inner)@
            }),
    {
        inner.remove_space(weight)
    }

    /// One more sender for the channel.
    pub fn clone(&self, inner: &mut Inner<T, S>) -> (sender: Self)
        requires
            old(inner).wf(),
            old(inner)@.senders < usize::MAX,
        ensures
            final(inner).wf(),
            old(inner).keeps_listeners(*final(inner)),
            final(inner)@ == old(inner)@.sender_joins(),
    {
        self.new_sender(inner)
    }

    /// Takes this sender out of the channel. The last sender closes it.
    pub fn drop(self, inner: &mut Inner<T, S>)
        requires
            old(inner).wf(),
            old(inner)@.senders > 0,
        ensures
            final(inner).wf(),
            old(inner).keeps_listeners(*final(inner)),
            final(inner)@ == old(inner)@.sender_leaves(),
    {
        inner.remove_sender();
    }
}

impl<T, S: Scale<T>> Receiver<T, S> {
    /// The number of the message that this receiver reads next.
    pub closed spec fn pos(self) -> nat {
        self.pos as nat
    }

    /// The channel counts this receiver.
    pub open spec fn takes_part(self, channel: WeightedChannel<T, S>) -> bool {
        channel.receivers.contains(self.pos())
    }

    /// Return a new sender attached to this channel.
    ///
    /// Note: this will not re-open the channel if it was closed due to all senders being dropped.
    pub fn new_sender(&self, inner: &mut Inner<T, S>) -> (sender: Sender<T, S>)
        requires
            old(inner).wf(),
            old(inner)@.senders < usize::MAX,
        ensures
            final(inner).wf(),
            old(inner).keeps_listeners(*final(inner)),
            final(inner)@ == old(inner)@.sender_joins(),
    {
        inner.new_sender();
        Sender { channel: PhantomData }
    }

    /// Return a new receiver attached to this channel.
    ///
    /// The new receiver will start with no elements pending.
    pub fn new_receiver(&self, inner: &mut Inner<T, S>) -> (receiver: Receiver<T, S>)
        requires
            old(inner).wf(),
            old(inner)@.receivers.len() < usize::MAX,
        ensures
            final(inner).wf(),
            old(inner).keeps_listeners(*final(inner)),
            final(inner)@ == old(inner)@.receiver_joins(),
            receiver.pos() == old(inner)@.tail(),
            receiver.takes_part(final(inner)@),
    {
        Receiver { pos: inner.new_receiver(), channel: PhantomData }
    }

    /// If overflow mode is enabled on this channel.
    pub fn overflow(&self, inner: &Inner<T, S>) -> (overflow: bool)
        ensures
            overflow == inner@.overflow,
    {
        inner.overflow()
    }

    /// Set overflow mode on the channel.
    pub fn set_overflow(&self, inner: &mut Inner<T, S>, overflow: bool)
        requires
            old(inner).wf(),
        ensures
            final(inner).wf(),
            old(inner).keeps_listeners(*final(inner)),
            final(inner)@ == old(inner)@.with_overflow(overflow),
    {
        inner.set_overflow(overflow);
    }

    /// Closes the channel.
    pub fn close(&self, inner: &mut Inner<T, S>)
        requires
            old(inner).wf(),
        ensures
            final(inner).wf(),
            old(inner).keeps_listeners(*final(inner)),
            final(inner)@ == old(inner)@.closing(),
    {
        inner.close();
    }

    /// Takes this receiver out of the channel. It gives up all messages that are left for it. The
    /// last receiver closes the channel.
    pub fn drop(self, inner: &mut Inner<T, S>)
        requires
            old(inner).wf(),
            self.takes_part(old(inner)@),
        ensures
            final(inner).wf(),
            old(inner).keeps_listeners(*final(inner)),
            final(inner)@ == old(inner)@.receiver_leaves(self.pos()),
    {
        inner.remove_receiver(self.pos);
    }
}

impl<T: Clone, S: Scale<T>> Receiver<T, S> {
    /// Receives a message from the channel.
    pub fn recv(&mut self) -> (recv: Recv<'_, T, S>)
        ensures
            *recv.recv == *old(self),
            *final(recv.recv) == *final(self),
            recv.waiter is None,
    {
        Recv { recv: self, waiter: None }
    }

    /// Attempts to receive a message from the channel.
    pub fn try_recv(&mut self, inner: &mut Inner<T, S>) -> (result: Result<T, TryRecvError>)
        requires
            old(inner).wf(),
            old(self).takes_part(old(inner)@),
        ensures
            final(inner).wf(),
            old(inner).keeps_listeners(*final(inner)),
            final(self).takes_part(final(inner)@),
            final(inner)@ == old(inner)@.after_read(old(self).pos()),
            final(self).pos() == old(inner)@.next(old(self).pos()),
            match result {
                Ok(m) => {
                    &&& old(inner)@.reads(old(self).pos()) is Ok
                    &&& copied(old(inner)@, old(self).pos(), m)
                },
                Err(e) => old(inner)@.reads(old(self).pos()) == Err::<T, _>(e),
            },
    {
        match inner.recv_at(&mut self.pos) {
            Ok(Ok(msg)) => Ok(msg),
            Ok(Err(msg)) => Ok(msg.clone()),
            Err(e) => Err(e),
        }
    }
}

/// `msg` is what a receiver at `pos` may get as the message there: the message itself if it is
/// the last one to read it, and a clone of it otherwise.
pub open spec fn copied<T: Clone, S: Scale<T>>(
    channel: WeightedChannel<T, S>,
    pos: nat,
    msg: T,
) -> bool {
    if channel.releases(pos) {
        msg == channel.sent[pos as int]
    } else {
        cloned(channel.sent[pos as int], msg)
    }
}

/// A waiting send, made by [`Sender::broadcast`].
#[derive(Debug)]
pub struct Send<T, S: Scale<T>> {
    item: Option<T>,
    waiter: Option<EventListener>,
    scale: PhantomData<S>,
}

impl<T, S: Scale<T>> Send<T, S> {
    /// The message, until the operation is over.
    pub closed spec fn item(self) -> Option<T> {
        self.item
    }

    /// What listens for room in the channel, while this operation waits.
    pub closed spec fn waiter(self) -> Option<EventListener> {
        self.waiter
    }

    /// The listener of this operation, for whoever waits for it.
    pub fn waiter_mut(&mut self) -> (waiter: &mut Option<EventListener>)
        ensures
            *waiter == old(self).waiter(),
            final(self).waiter() == *final(waiter),
            final(self).item() == old(self).item(),
    {
        &mut self.waiter
    }

    /// One round of the operation: unless it waits already, an attempt to send and, where there
    /// is no room yet, a listener to wait for.
    pub fn poll(&mut self, inner: &mut Inner<T, S>) -> (step: Step<Result<(), SendError<T>>>)
        requires
            old(inner).wf(),
            old(inner)@.tail() < u64::MAX,
        ensures
            final(inner).wf(),
            old(inner).keeps_listeners(*final(inner)),
            old(inner).wakes_send(old(self).waiter()) ==> final(inner).wakes_send(
                final(self).waiter(),
            ),
            match (old(self).waiter(), old(self).item()) {
                (Some(_), _) => {
                    &&& step is Wait
                    &&& *final(self) == *old(self)
                    &&& final(inner)@ == old(inner)@
                },
                (None, None) => {
                    &&& step == Step::Ready(Ok::<(), SendError<T>>(()))
                    &&& *final(self) == *old(self)
                    &&& final(inner)@ == old(inner)@
                },
                (None, Some(msg)) => match old(inner)@.send_result(msg) {
                    Ok(_) => {
                        &&& step == Step::Ready(Ok::<(), SendError<T>>(()))
                        &&& final(self).item() is None
                        &&& final(self).waiter() is None
                        &&& final(inner)@ == old(inner)@.after_send(msg)
                    },
                    Err(TrySendError::Closed(_)) => {
                        &&& step == Step::Ready(Err::<(), _>(SendError::<T>::Closed(msg)))
                        &&& final(self).item() is None
                        &&& final(self).waiter() is None
                        &&& final(inner)@ == old(inner)@
                    },
                    Err(_) => {
                        &&& step is Wait
                        &&& final(self).item() == Some(msg)
                        &&& final(self).waiter() is Some
                        &&& final(inner)@ == old(inner)@.after_send(msg).send_listens()
                    },
                },
            },
    {
        if self.waiter.is_some() {
            return Step::Wait;
        }
        match self.item.take() {
            None => Step::Ready(Ok(())),
            Some(msg) => match inner.try_send(msg) {
                Ok(unit) => Step::Ready(Ok(unit)),
                Err(e) => match e.map_send_error() {
                    Ok(msg) => {
                        self.item = Some(msg);
                        self.waiter = Some(inner.listen_send());
                        Step::Wait
                    },
                    Err(e) => Step::Ready(Err(e)),
                },
            },
        }
    }
}

/// A waiting receive, made by [`Receiver::recv`].
#[derive(Debug)]
pub struct Recv<'a, T, S: Scale<T>> {
    /// Who receives.
    pub recv: &'a mut Receiver<T, S>,
    /// Listens for a message, while this operation waits.
    pub waiter: Option<EventListener>,
}

impl<'a, T: Clone, S: Scale<T>> Recv<'a, T, S> {
    /// One round of the operation: unless it waits already, an attempt to receive and, where
    /// there is nothing to receive yet, a listener to wait for.
    pub fn poll(&mut self, inner: &mut Inner<T, S>) -> (step: Step<Result<T, RecvError>>)
        requires
            old(inner).wf(),
            old(self).recv.takes_part(old(inner)@),
        ensures
            final(inner).wf(),
            old(inner).keeps_listeners(*final(inner)),
            old(inner).wakes_recv(old(self).waiter) ==> final(inner).wakes_recv(
                final(self).waiter,
            ),
            final(self).recv.takes_part(final(inner)@),
            *final(final(self).recv) == *final(old(self).recv),
            if old(self).waiter is Some {
                &&& step is Wait
                &&& *final(self).recv == *old(self).recv
                &&& final(self).waiter == old(self).waiter
                &&& final(inner)@ == old(inner)@
            } else {
                let pos = old(self).recv.pos();
                &&& final(self).recv.pos() == old(inner)@.next(pos)
                &&& match old(inner)@.reads(pos) {
                    Ok(_) => {
                        &&& step matches Step::Ready(Ok(m)) && copied(old(inner)@, pos, m)
                        &&& final(self).waiter is None
                        &&& final(inner)@ == old(inner)@.after_read(pos)
                    },
                    Err(TryRecvError::Overflowed(n)) => {
                        &&& step == Step::Ready(Err::<T, _>(RecvError::Overflowed(n)))
                        &&& final(self).waiter is None
                        &&& final(inner)@ == old(inner)@.after_read(pos)
                    },
                    Err(TryRecvError::Closed) => {
                        &&& step == Step::Ready(Err::<T, _>(RecvError::Closed))
                        &&& final(self).waiter is None
                        &&& final(inner)@ == old(inner)@
                    },
                    Err(TryRecvError::Empty) => {
                        &&& step is Wait
                        &&& final(self).waiter is Some
                        &&& final(inner)@ == old(inner)@.recv_listens()
                    },
                }
            },
    {
        if self.waiter.is_some() {
            return Step::Wait;
        }
        match self.recv.try_recv(inner) {
            Ok(msg) => Step::Ready(Ok(msg)),
            Err(TryRecvError::Overflowed(n)) => Step::Ready(Err(RecvError::Overflowed(n))),
            Err(TryRecvError::Closed) => {
                assert(inner@ =~= old(inner)@);
                Step::Ready(Err(RecvError::Closed))
            },
            Err(TryRecvError::Empty) => {
                assert(inner@ =~= old(inner)@);
                self.waiter = Some(inner.listen_recv());
                Step::Wait
            },
        }
    }
}

} // verus!
