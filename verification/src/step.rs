//! What an operation that may have to wait wants done next.
use vstd::prelude::*;

verus! {

/// What an operation that may have to wait wants done next.
#[derive(PartialEq, Eq, Clone, Copy, Debug)]
pub enum Step<R> {
    /// The operation is over.
    Ready(R),
    /// The operation has to be polled once more right away.
    Retry,
    /// The operation has to be polled again once its listener has been notified. The listener is
    /// then to be taken away from it.
    Wait,
}

} // verus!
