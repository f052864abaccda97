//! Broadcast channel
//!
//! A multi-producer multi-consumer broadcast channel, where each consumer gets a clone of every
//! message sent on the channel. For obvious reasons, the channel can only be used to broadcast
//! types that implement [`Clone`].
//!
//! A channel has the [`Sender`] and [`Receiver`] side. Both sides are cloneable. When all senders
//! or all receivers are dropped, the channel becomes closed. When a channel is closed, no more
//! messages can be sent, but remaining messages can still be received.
//!
//! The channel can also be closed manually by calling [`Sender::close`] or [`Receiver::close`].
//!
//! The handles of a channel share its state, [`Inner`], which every operation takes as an
//! argument. A handle goes only with the state of its own channel. Whoever uses a channel from
//! several threads puts the state behind a lock, and each operation is one critical section.
//! Operations that may have to wait are state machines that are polled round by round; see
//! [`Step`].
use vstd::prelude::*;

pub mod channel;
pub mod cursors;
pub mod error_laws;
pub mod errors;
pub mod inactive;
pub mod inner;
pub mod laws;
pub mod limiter;
pub mod promises;
mod queue;
pub mod receiver;
pub mod sender;
pub mod signal;
pub mod step;
pub mod text;
pub mod weighted;

pub use crate::errors::{FullError, RecvError, SendError, TryRecvError, TrySendError};
pub use crate::inactive::InactiveReceiver;
pub use crate::inner::Inner;
pub use crate::limiter::{
    AdjustableCapacityLimiter, CapacityLimiter, Contents, ElementCountLimiter,
};
pub use crate::receiver::{Receiver, Recv};
pub use crate::sender::{Send, Sender};
pub use crate::signal::{Ops, Signal};
pub use crate::step::Step;

verus! {

/// Create a new broadcast channel.
///
/// The created channel has space to hold at most `cap` messages at a time, which has to be a
/// positive number.
pub fn broadcast<T>(cap: usize) -> (created: (
    Inner<T, ElementCountLimiter>,
    Sender<T>,
    Receiver<T>,
))
    requires
        cap > 0,
    ensures
        created.0.wf(),
        created.0@ == crate::channel::Channel::<T, _>::created(ElementCountLimiter(cap)),
        created.2.pos() == 0,
        created.2.listener() is None,
        created.2.takes_part(created.0@),
{
    broadcast_with_limiter(ElementCountLimiter(cap))
}

/// Create a new broadcast channel with the given limiter.
///
/// A limiter tracks the contents of the channel and determines if sending an element to the
/// channel will block or cause an overflow.  This allows implementing more complex limits such as
/// a limit on the total memory size of elements in this channel.  The usual solution of using a
/// separate semaphore to manage such limits does not work with broadcast channels as only the
/// channel tracks when the last copy of a message is removed.  See [`CapacityLimiter`] for more
/// details.
pub fn broadcast_with_limiter<T, L: CapacityLimiter<T>>(capacity: L) -> (created: (
    Inner<T, L>,
    Sender<T, L>,
    Receiver<T, L>,
))
    ensures
        created.0.wf(),
        created.0@ == crate::channel::Channel::<T, L>::created(capacity),
        created.2.pos() == 0,
        created.2.listener() is None,
        created.2.takes_part(created.0@),
{
    (Inner::new(capacity), Sender::new(), Receiver::new(0))
}

} // verus!
