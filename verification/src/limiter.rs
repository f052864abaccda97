//! Limits on the capacity of a channel.
use crate::errors::FullError;
use std::collections::VecDeque;
use vstd::prelude::*;

verus! {

/// The messages of a queue, oldest first, without their counts of waiting receivers.
pub open spec fn messages<T>(queue: Seq<(T, usize)>) -> Seq<T> {
    queue.map_values(|entry: (T, usize)| entry.0)
}

/// A look at the messages in a channel, oldest first, as a limiter gets to see them.
pub struct Contents<'a, T> {
    queue: &'a VecDeque<(T, usize)>,
}

impl<'a, T> View for Contents<'a, T> {
    type V = Seq<T>;

    closed spec fn view(&self) -> Seq<T> {
        messages(self.queue@)
    }
}

impl<'a, T> Contents<'a, T> {
    /// The messages of a queue whose entries also hold a count of waiting receivers.
    pub fn new(queue: &'a VecDeque<(T, usize)>) -> (contents: Self)
        ensures
            contents@ == messages(queue@),
    {
        Contents { queue }
    }

    /// The number of messages.
    pub fn len(&self) -> (n: usize)
        ensures
            n == self@.len(),
    {
        self.queue.len()
    }

    /// The message with index `i`, counted from the oldest.
    pub fn get(&self, i: usize) -> (item: Option<&'a T>)
        ensures
            item == (if i < self@.len() {
                Some(&self@[i as int])
            } else {
                None
            }),
    {
        if i < self.queue.len() {
            Some(&self.queue[i].0)
        } else {
            None
        }
    }
}

/// A limit on the capacity of a channel.
///
/// This allows for more complex limits on a channel's capacity, beyond the number of messages.
/// Each broadcast channel contains a limiter that is consulted prior to adding a message to the
/// channel and notified when a message is removed.
///
/// A limiter may also reject some elements unconditionally by returning an error that is
/// designated as fatal.  This may be useful if not all instances of a given type are suitable for
/// sending to this channel.
///
/// An implementation says with the relations [`added`](CapacityLimiter::added),
/// [`removed`](CapacityLimiter::removed), [`fatal`](CapacityLimiter::fatal) and
/// [`full`](CapacityLimiter::full) which answers it may give; where an answer is settled by the
/// arguments, the relation holds of that one answer only. An implementation that says nothing may
/// give any answer.
pub trait CapacityLimiter<T>: Sized {
    /// An "over capacity" error.
    ///
    /// Prefer setting this to [`FullError`] if you have no details to add.
    type Error;

    /// `try_add` may answer `result` and leave the limiter as `post`.
    open spec fn added(
        pre: Self,
        item: T,
        contents: Seq<T>,
        post: Self,
        result: Result<(), Self::Error>,
    ) -> bool {
        true
    }

    /// `remove` may leave the limiter as `post`.
    open spec fn removed(pre: Self, item: T, contents: Seq<T>, post: Self) -> bool {
        true
    }

    /// `error_is_fatal` may answer `answer`.
    open spec fn fatal(self, error: Self::Error, answer: bool) -> bool {
        true
    }

    /// `is_full` may answer `answer`.
    open spec fn full(self, contents: Seq<T>, answer: bool) -> bool {
        true
    }

    /// Attempt to add the given item to the channel.
    ///
    /// Return `Ok` if the item may be added.  Any updates to internal state should only be done
    /// if this function returns `Ok`.  An overflowing channel will retry the add after removing an
    /// element if the returned error is not fatal.
    fn try_add(&mut self, item: &T, contents: Contents<'_, T>) -> (result: Result<(), Self::Error>)
        ensures
            Self::added(*old(self), *item, contents@, *final(self), result),
    ;

    /// Remove an item from the channel.
    ///
    /// The item removed and the rest of the items in the channel are provided in order to allow
    /// updating internal state.
    fn remove(&mut self, item: &T, contents: Contents<'_, T>)
        ensures
            Self::removed(*old(self), *item, contents@, *final(self)),
    ;

    /// Hint if an error is fatal.
    ///
    /// Non-fatal errors will cause the channel to begin discarding elements (if the channel is
    /// overflowing) or block on send (if not) until either the channel is empty or the `try_add`
    /// succeeds.  If it is known that `try_add` will never succeed, return `true` here to cause
    /// send operations to immediately return a `Rejected` error variant.
    fn error_is_fatal(&self, error: &Self::Error) -> (answer: bool)
        ensures
            self.fatal(*error, answer),
    ;

    /// Hint if the channel is full.
    ///
    /// If this method returns true, waiting send operations will not be unblocked.  Always
    /// answering false may result in an extra wakeup but does not impact correctness.
    fn is_full(&self, contents: Contents<'_, T>) -> (answer: bool)
        ensures
            self.full(contents@, answer),
    ;
}

/// An adjustable limit on the capacity of a channel.
pub trait AdjustableCapacityLimiter<T>: CapacityLimiter<T> {
    /// An adjustment message
    type Adjustment;

    /// `try_adjust` may answer `result`, leave the limiter as `post` and the adjustment message
    /// as `msg_post`.
    open spec fn adjusted(
        pre: Self,
        msg: Self::Adjustment,
        contents: Seq<T>,
        post: Self,
        msg_post: Self::Adjustment,
        result: Result<(), Self::Error>,
    ) -> bool {
        true
    }

    /// Try to adjust the capacity according to the given message.
    ///
    /// Return `Ok` if the adjustment was successful.  Any updates to internal state should be done
    /// only if this function returns `Ok`.  This may be called multiple times with successively
    /// fewer elements if the returned error is non-fatal.
    fn try_adjust(
        &mut self,
        msg: &mut Self::Adjustment,
        contents: Contents<'_, T>,
    ) -> (result: Result<(), Self::Error>)
        ensures
            Self::adjusted(*old(self), *old(msg), contents@, *final(self), *final(msg), result),
    ;
}

/// A [`CapacityLimiter`] based on the number of elements in the channel.
#[derive(Debug)]
pub struct ElementCountLimiter(pub usize);

impl<T> CapacityLimiter<T> for ElementCountLimiter {
    type Error = FullError;

    open spec fn added(
        pre: Self,
        item: T,
        contents: Seq<T>,
        post: Self,
        result: Result<(), FullError>,
    ) -> bool {
        &&& post == pre
        &&& result == if contents.len() < pre.0 {
            Ok::<(), FullError>(())
        } else {
            Err(FullError)
        }
    }

    open spec fn removed(pre: Self, item: T, contents: Seq<T>, post: Self) -> bool {
        post == pre
    }

    open spec fn fatal(self, error: FullError, answer: bool) -> bool {
        answer == false
    }

    open spec fn full(self, contents: Seq<T>, answer: bool) -> bool {
        answer == (self.0 <= contents.len())
    }

    fn try_add(&mut self, item: &T, contents: Contents<'_, T>) -> (result: Result<(), FullError>) {
        // the current len does not yet include the new element
        if self.0 > contents.len() {
            Ok(())
        } else {
            Err(FullError)
        }
    }

    fn remove(&mut self, item: &T, contents: Contents<'_, T>) {
    }

    fn error_is_fatal(&self, error: &FullError) -> (answer: bool) {
        false
    }

    fn is_full(&self, contents: Contents<'_, T>) -> (answer: bool) {
        self.0 <= contents.len()
    }
}

impl<T> AdjustableCapacityLimiter<T> for ElementCountLimiter {
    type Adjustment = usize;

    open spec fn adjusted(
        pre: Self,
        msg: usize,
        contents: Seq<T>,
        post: Self,
        msg_post: usize,
        result: Result<(), FullError>,
    ) -> bool {
        &&& msg_post == msg
        &&& if contents.len() <= msg {
            post == ElementCountLimiter(msg) && result == Ok::<(), FullError>(())
        } else {
            post == pre && result == Err::<(), FullError>(FullError)
        }
    }

    fn try_adjust(&mut self, msg: &mut usize, contents: Contents<'_, T>) -> (result: Result<
        (),
        FullError,
    >) {
        if *msg >= contents.len() {
            self.0 = *msg;
            Ok(())
        } else {
            Err(FullError)
        }
    }
}

/// What a limiter makes of a message that is to be sent.
pub enum Admission<E> {
    /// It has been added.
    Added,
    /// There is no room, but there may be some later.
    Full(E),
    /// There is no room, and waiting would not help.
    Rejected(E),
}

/// A limiter in the state `pre` may give `outcome` for `msg` on a channel that holds `queue`,
/// after `evicted` of the oldest messages have been removed to make room, and be left as `post`.
///
/// Messages are only removed while the channel overflows and holds any, and while the limiter
/// refuses `msg` with an error that is not fatal.
pub open spec fn admits<T, L: CapacityLimiter<T>>(
    pre: L,
    msg: T,
    queue: Seq<T>,
    overflow: bool,
    evicted: nat,
    post: L,
    outcome: Admission<L::Error>,
) -> bool
    decreases evicted,
{
    if evicted == 0 {
        match outcome {
            Admission::Added => L::added(pre, msg, queue, post, Ok(())),
            Admission::Full(e) => {
                &&& L::added(pre, msg, queue, post, Err(e))
                &&& queue.len() > 0 && post.fatal(e, false)
                &&& !overflow
            },
            Admission::Rejected(e) => {
                &&& L::added(pre, msg, queue, post, Err(e))
                &&& queue.len() == 0 || post.fatal(e, true)
            },
        }
    } else {
        &&& overflow
        &&& queue.len() > 0
        &&& exists|refused: L, e: L::Error, freed: L|
            {
                &&& #[trigger] L::added(pre, msg, queue, refused, Err(e))
                &&& refused.fatal(e, false)
                &&& #[trigger] L::removed(refused, queue[0], queue.skip(1), freed)
                &&& admits(
                    freed,
                    msg,
                    queue.skip(1),
                    overflow,
                    (evicted - 1) as nat,
                    post,
                    outcome,
                )
            }
    }
}

/// A limiter in the state `pre` may answer the adjustment `msg` with `result` on a channel that
/// holds `queue`, after `evicted` of the oldest messages have been removed, and be left as `post`.
///
/// Messages are only removed while the channel holds any, and while the limiter refuses the
/// adjustment with an error that is not fatal.
pub open spec fn adjusts<T, L: AdjustableCapacityLimiter<T>>(
    pre: L,
    msg: L::Adjustment,
    queue: Seq<T>,
    evicted: nat,
    post: L,
    result: Result<(), L::Error>,
) -> bool
    decreases evicted,
{
    if evicted == 0 {
        exists|msg_post: L::Adjustment|
            {
                &&& #[trigger] L::adjusted(pre, msg, queue, post, msg_post, result)
                &&& match result {
                    Ok(_) => true,
                    Err(e) => post.fatal(e, true) || (queue.len() == 0 && post.fatal(e, false)),
                }
            }
    } else {
        &&& queue.len() > 0
        &&& exists|refused: L, msg_post: L::Adjustment, e: L::Error, freed: L|
            {
                &&& #[trigger] L::adjusted(pre, msg, queue, refused, msg_post, Err(e))
                &&& refused.fatal(e, false)
                &&& #[trigger] L::removed(refused, queue[0], queue.skip(1), freed)
                &&& adjusts(freed, msg_post, queue.skip(1), (evicted - 1) as nat, post, result)
            }
    }
}

/// No more messages are removed for a send than there are.
pub proof fn lemma_admits_at_most<T, L: CapacityLimiter<T>>(
    pre: L,
    msg: T,
    queue: Seq<T>,
    overflow: bool,
    evicted: nat,
    post: L,
    outcome: Admission<L::Error>,
)
    requires
        admits(pre, msg, queue, overflow, evicted, post, outcome),
    ensures
        evicted <= queue.len(),
    decreases evicted,
{
    if evicted > 0 {
        let (refused, e, freed) = choose|refused: L, e: L::Error, freed: L|
            {
                &&& #[trigger] L::added(pre, msg, queue, refused, Err(e))
                &&& refused.fatal(e, false)
                &&& #[trigger] L::removed(refused, queue[0], queue.skip(1), freed)
                &&& admits(
                    freed,
                    msg,
                    queue.skip(1),
                    overflow,
                    (evicted - 1) as nat,
                    post,
                    outcome,
                )
            };
        lemma_admits_at_most(
            freed,
            msg,
            queue.skip(1),
            overflow,
            (evicted - 1) as nat,
            post,
            outcome,
        );
    }
}

/// No more messages are removed for an adjustment than there are.
pub proof fn lemma_adjusts_at_most<T, L: AdjustableCapacityLimiter<T>>(
    pre: L,
    msg: L::Adjustment,
    queue: Seq<T>,
    evicted: nat,
    post: L,
    result: Result<(), L::Error>,
)
    requires
        adjusts(pre, msg, queue, evicted, post, result),
    ensures
        evicted <= queue.len(),
    decreases evicted,
{
    if evicted > 0 {
        let (refused, msg_post, e, freed) = choose|
            refused: L,
            msg_post: L::Adjustment,
            e: L::Error,
            freed: L,
        |
            {
                &&& #[trigger] L::adjusted(pre, msg, queue, refused, msg_post, Err(e))
                &&& refused.fatal(e, false)
                &&& #[trigger] L::removed(refused, queue[0], queue.skip(1), freed)
                &&& adjusts(freed, msg_post, queue.skip(1), (evicted - 1) as nat, post, result)
            };
        lemma_adjusts_at_most(
            freed,
            msg_post,
            queue.skip(1),
            (evicted - 1) as nat,
            post,
            result,
        );
    }
}

/// How many messages a send evicts from an overflowing channel of the given capacity: those that
/// are in the way of one more, or all where nothing ever fits.
pub open spec fn count_evicted(len: nat, cap: nat, overflow: bool) -> nat {
    if !overflow || len < cap {
        0
    } else if cap == 0 {
        len
    } else {
        (len - cap + 1) as nat
    }
}

/// What a limit on the number of elements makes of one more message.
pub open spec fn count_admission(len: nat, cap: nat, overflow: bool) -> Admission<FullError> {
    if len < cap || (overflow && cap > 0) {
        Admission::Added
    } else if len == 0 || overflow {
        Admission::Rejected(FullError)
    } else {
        Admission::Full(FullError)
    }
}

/// A limit on the number of elements settles every send: what becomes of the message, and how
/// many of the oldest ones have to go for it, depends on the length of the queue, the capacity
/// and the overflow mode alone. The capacity stays as it is.
pub proof fn lemma_count_admits<T>(
    pre: ElementCountLimiter,
    msg: T,
    queue: Seq<T>,
    overflow: bool,
    evicted: nat,
    post: ElementCountLimiter,
    outcome: Admission<FullError>,
)
    ensures
        admits(pre, msg, queue, overflow, evicted, post, outcome) <==> {
            &&& post == pre
            &&& evicted == count_evicted(queue.len(), pre.0 as nat, overflow)
            &&& outcome == count_admission(queue.len(), pre.0 as nat, overflow)
        },
    decreases queue.len(),
{
    if queue.len() > 0 {
        if evicted > 0 {
            lemma_count_admits(
                pre,
                msg,
                queue.skip(1),
                overflow,
                (evicted - 1) as nat,
                post,
                outcome,
            );
            if queue.len() >= pre.0 && overflow {
                assert(<ElementCountLimiter as CapacityLimiter<T>>::added(
                    pre,
                    msg,
                    queue,
                    pre,
                    Err(FullError),
                ));
                assert(<ElementCountLimiter as CapacityLimiter<T>>::removed(
                    pre,
                    queue[0],
                    queue.skip(1),
                    pre,
                ));
            }
        }
    }
}

/// A limit on the number of elements follows every adjustment: the oldest messages go until the
/// rest fits, and the capacity is then the one asked for.
pub proof fn lemma_count_adjusts<T>(
    pre: ElementCountLimiter,
    msg: usize,
    queue: Seq<T>,
    evicted: nat,
    post: ElementCountLimiter,
    result: Result<(), FullError>,
)
    ensures
        adjusts(pre, msg, queue, evicted, post, result) <==> {
            &&& post == ElementCountLimiter(msg)
            &&& evicted == if queue.len() > msg {
                (queue.len() - msg) as nat
            } else {
                0
            }
            &&& result == Ok::<(), FullError>(())
        },
    decreases queue.len(),
{
    if evicted > 0 {
        if queue.len() > 0 {
            lemma_count_adjusts(pre, msg, queue.skip(1), (evicted - 1) as nat, post, result);
            if queue.len() > msg {
                assert(<ElementCountLimiter as AdjustableCapacityLimiter<T>>::adjusted(
                    pre,
                    msg,
                    queue,
                    pre,
                    msg,
                    Err(FullError),
                ));
                assert(<ElementCountLimiter as CapacityLimiter<T>>::removed(
                    pre,
                    queue[0],
                    queue.skip(1),
                    pre,
                ));
            }
        }
    } else {
        if queue.len() <= msg {
            assert(<ElementCountLimiter as AdjustableCapacityLimiter<T>>::adjusted(
                pre,
                msg,
                queue,
                ElementCountLimiter(msg),
                msg,
                Ok(()),
            ));
        }
    }
}

} // verus!
