//! Access to the entries of a queue.
use std::collections::VecDeque;
use vstd::prelude::*;

verus! {

/// The element of a queue at index `i`, for changing it in place.
///
/// Trusted: `VecDeque::get_mut` hands out the element at that index, counted from the front, and
/// what is written there ends up in the queue; it hands out nothing beyond the end.
#[verifier::external_body]
pub(crate) fn queue_get_mut<T>(queue: &mut VecDeque<T>, i: usize) -> (entry: Option<&mut T>)
    ensures
        match entry {
            Some(e) => {
                &&& i < old(queue)@.len()
                &&& *e == old(queue)@[i as int]
                &&& final(queue)@ == old(queue)@.update(i as int, *final(e))
            },
            None => {
                &&& i >= old(queue)@.len()
                &&& final(queue)@ == old(queue)@
            },
        },
{
    queue.get_mut(i)
}

} // verus!
