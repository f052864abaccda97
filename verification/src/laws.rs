//! What holds of a channel as a whole.
use crate::channel::{
    adjust_outcome, broadcast_done, broadcast_outcome, left, received, steps_to_tail, Channel,
};
use crate::cursors::{
    lemma_behind_all, lemma_behind_insert, lemma_behind_monotone, lemma_behind_moved,
    lemma_behind_remove, lemma_behind_strict, lemma_behind_witness, lemma_moved_len,
};
use crate::errors::{FullError, TryRecvError, TrySendError};
use crate::limiter::{
    adjusts, admits, count_admission, count_evicted, lemma_adjusts_at_most, lemma_admits_at_most,
    lemma_count_adjusts, lemma_count_admits, AdjustableCapacityLimiter, Admission,
    CapacityLimiter, ElementCountLimiter,
};
use crate::signal::Signal;
use vstd::prelude::*;

verus! {

/// `post` is what a channel may be at some time after it was `pre`: nothing that was sent is
/// forgotten or reordered, the head has not gone back, and a closed channel is still closed.
pub open spec fn later<T, L>(pre: Channel<T, L>, post: Channel<T, L>) -> bool {
    &&& pre.tail() <= post.tail()
    &&& forall|i: int| 0 <= i < pre.tail() ==> pre.sent[i] == #[trigger] post.sent[i]
    &&& pre.head <= post.head
    &&& pre.closed ==> post.closed
}

/// `post` is what one operation, other than an adjustment of the capacity, makes of `pre`.
pub open spec fn operates<T, L: CapacityLimiter<T>>(
    pre: Channel<T, L>,
    post: Channel<T, L>,
) -> bool {
    ||| exists|pos: nat| pre.receivers.contains(pos) && #[trigger] received(pre, pos, post)
    ||| exists|msg: T, result: Result<Option<T>, TrySendError<T, L::Error>>|
        broadcast_outcome(pre, msg, post, result)
    ||| exists|pos: nat, steps: nat|
        pre.receivers.contains(pos) && #[trigger] left(pre, pos, steps, post)
    ||| exists|pos: nat, steps: nat|
        pre.receivers.contains(pos) && #[trigger] left(pre.inactive_joins(), pos, steps, post)
    ||| post == pre.closing()
    ||| post == pre.sender_joins()
    ||| post == pre.sender_leaves()
    ||| post == pre.receiver_joins()
    ||| post == pre.receiver_activates()
    ||| post == pre.inactive_joins()
    ||| post == pre.inactive_leaves()
    ||| post == pre.with_overflow(true)
    ||| post == pre.with_overflow(false)
    ||| post == pre.send_listens()
    ||| post == pre.recv_listens()
    ||| post == pre.sender_woken()
}

/// Time goes on: what comes after something later is later still.
pub proof fn law_later_transitive<T, L>(a: Channel<T, L>, b: Channel<T, L>, c: Channel<T, L>)
    requires
        later(a, b),
        later(b, c),
    ensures
        later(a, c),
{
    assert forall|i: int| 0 <= i < a.tail() implies a.sent[i] == #[trigger] c.sent[i] by {
        assert(a.sent[i] == b.sent[i]);
    }
}

/// What `left` comes down to: the log stays, the receiver is gone, nobody else is affected, no
/// message that anybody else waits for has gone, and the channel is closed if nobody is left.
pub proof fn law_leaving_takes_from_nobody<T, L: CapacityLimiter<T>>(
    pre: Channel<T, L>,
    pos: nat,
    steps: nat,
    post: Channel<T, L>,
)
    requires
        pre.coherent(),
        pre.receivers.contains(pos),
        left(pre, pos, steps, post),
    ensures
        post.sent == pre.sent,
        post.receivers == pre.receivers.remove(pos),
        post.inactive == pre.inactive,
        post.senders == pre.senders,
        post.overflow == pre.overflow,
        pre.head <= post.head <= pre.tail(),
        forall|q: nat|
            pre.head <= q < pre.tail() && #[trigger] post.waiting(q) > 0 ==> post.head <= q,
        post.closed == (pre.closed || (post.receivers.len() == 0 && post.inactive == 0)),
    decreases steps,
{
    if steps > 0 {
        let mid = choose|mid: Channel<T, L>|
            #[trigger] received(pre, pos, mid) && left(
                mid,
                pre.next(pos),
                (steps - 1) as nat,
                post,
            );
        lemma_received_coherent(pre, pos, mid);
        lemma_moved_len(pre.receivers, pos, pre.next(pos));
        law_leaving_takes_from_nobody(mid, pre.next(pos), (steps - 1) as nat, post);
        assert forall|q: nat| pre.head <= q < pre.tail() && #[trigger] post.waiting(
            q,
        ) > 0 implies post.head <= q by {
            if q < mid.head {
                // The oldest message went because nobody else was waiting for it.
                assert(q == pre.head == pos);
                lemma_behind_remove(pre.receivers, pos, q);
            }
        }
    }
}

proof fn lemma_received_coherent<T, L: CapacityLimiter<T>>(
    pre: Channel<T, L>,
    pos: nat,
    post: Channel<T, L>,
)
    requires
        pre.coherent(),
        pre.receivers.contains(pos),
        received(pre, pos, post),
    ensures
        post.coherent(),
        post.receivers.contains(pre.next(pos)),
        post.sent == pre.sent,
{
    let to = pre.next(pos);
    lemma_moved_len(pre.receivers, pos, to);
    lemma_behind_moved(pre.receivers, pos, to, post.head);
    lemma_behind_witness(post.receivers, post.head);
    lemma_behind_witness(pre.receivers, pos);
    if !pre.releases(pos) && pos == pre.head && pre.head < pre.tail() {
        assert(pre.waiting(pre.head) > 1);
    }
}

/// Every operation leaves what was sent before as it was, moves the head forward if at all, and
/// never opens a closed channel.
pub proof fn law_operations_only_add<T, L: CapacityLimiter<T>>(
    pre: Channel<T, L>,
    post: Channel<T, L>,
)
    requires
        pre.coherent(),
        operates(pre, post),
    ensures
        later(pre, post),
{
    if exists|pos: nat, steps: nat|
        pre.receivers.contains(pos) && #[trigger] left(pre, pos, steps, post) {
        let (pos, steps) = choose|pos: nat, steps: nat|
            pre.receivers.contains(pos) && #[trigger] left(pre, pos, steps, post);
        law_leaving_takes_from_nobody(pre, pos, steps, post);
    } else if exists|pos: nat, steps: nat|
        pre.receivers.contains(pos) && #[trigger] left(pre.inactive_joins(), pos, steps, post) {
        let (pos, steps) = choose|pos: nat, steps: nat|
            pre.receivers.contains(pos) && #[trigger] left(pre.inactive_joins(), pos, steps, post);
        // The count of inactive receivers plays no part in what is read.
        lemma_left_later(pre.inactive_joins(), pos, steps, post);
    }
}

proof fn lemma_left_later<T, L: CapacityLimiter<T>>(
    pre: Channel<T, L>,
    pos: nat,
    steps: nat,
    post: Channel<T, L>,
)
    requires
        left(pre, pos, steps, post),
    ensures
        later(pre, post),
        post.inactive == pre.inactive,
        post.senders == pre.senders,
    decreases steps,
{
    if steps > 0 {
        let mid = choose|mid: Channel<T, L>|
            #[trigger] received(pre, pos, mid) && left(
                mid,
                pre.next(pos),
                (steps - 1) as nat,
                post,
            );
        lemma_left_later(mid, pre.next(pos), (steps - 1) as nat, post);
    }
}

/// `post` is what an adjustment of the capacity may make of `pre`: the head moves forward, if at
/// all, and nothing else changes but the limiter.
pub open spec fn adjusted<T, L>(pre: Channel<T, L>, post: Channel<T, L>) -> bool {
    &&& post == Channel { head: post.head, limiter: post.limiter, ..pre }
    &&& pre.head <= post.head <= pre.tail()
}

/// An adjustment of the capacity also only moves the head forward.
pub proof fn law_adjusting_only_drops_oldest<T, L: AdjustableCapacityLimiter<T>>(
    pre: Channel<T, L>,
    msg: L::Adjustment,
    post: Channel<T, L>,
    result: Result<(), L::Error>,
)
    requires
        pre.coherent(),
        adjust_outcome(pre, msg, post, result),
    ensures
        later(pre, post),
        adjusted(pre, post),
{
    let evicted = choose|evicted: nat|
        {
            &&& #[trigger] adjusts(pre.limiter, msg, pre.queue(), evicted, post.limiter, result)
            &&& post == Channel { head: pre.head + evicted, limiter: post.limiter, ..pre }
        };
    lemma_adjusts_at_most(pre.limiter, msg, pre.queue(), evicted, post.limiter, result);
}

/// The counts of a channel fit the machine.
pub open spec fn fits<T, L>(channel: Channel<T, L>) -> bool {
    &&& channel.tail() <= u64::MAX
    &&& channel.tail() - channel.head <= usize::MAX
    &&& channel.receivers.len() <= usize::MAX
    &&& channel.inactive <= usize::MAX
    &&& channel.senders <= usize::MAX
}

/// `post` is what one operation makes of `pre`.
pub open spec fn changes<T, L: CapacityLimiter<T>>(
    pre: Channel<T, L>,
    post: Channel<T, L>,
) -> bool {
    operates(pre, post) || adjusted(pre, post)
}

/// Whatever is done to a channel, it stays coherent, and closed once nobody attends to it, as long
/// as its counts fit the machine.
pub proof fn law_changes_keep_validity<T, L: CapacityLimiter<T>>(
    pre: Channel<T, L>,
    post: Channel<T, L>,
)
    requires
        pre.coherent(),
        changes(pre, post),
        fits(post),
    ensures
        post.coherent(),
        pre.valid() ==> post.valid(),
        later(pre, post),
{
    if adjusted(pre, post) {
        lemma_behind_monotone(pre.receivers, pre.head, post.head);
    } else {
        law_operations_only_add(pre, post);
        if exists|pos: nat| pre.receivers.contains(pos) && #[trigger] received(pre, pos, post) {
            let pos = choose|pos: nat|
                pre.receivers.contains(pos) && #[trigger] received(pre, pos, post);
            lemma_received_coherent(pre, pos, post);
            lemma_moved_len(pre.receivers, pos, pre.next(pos));
        } else if exists|msg: T, result: Result<Option<T>, TrySendError<T, L::Error>>|
            broadcast_outcome(pre, msg, post, result) {
            let (msg, result) = choose|
                msg: T,
                result: Result<Option<T>, TrySendError<T, L::Error>>,
            |
                broadcast_outcome(pre, msg, post, result);
            lemma_sending_keeps_coherent(pre, msg, post, result);
        } else if exists|pos: nat, steps: nat|
            pre.receivers.contains(pos) && #[trigger] left(pre, pos, steps, post) {
            let (pos, steps) = choose|pos: nat, steps: nat|
                pre.receivers.contains(pos) && #[trigger] left(pre, pos, steps, post);
            lemma_left_coherent(pre, pos, steps, post);
            law_leaving_takes_from_nobody(pre, pos, steps, post);
        } else if exists|pos: nat, steps: nat|
            pre.receivers.contains(pos) && #[trigger] left(
                pre.inactive_joins(),
                pos,
                steps,
                post,
            ) {
            let (pos, steps) = choose|pos: nat, steps: nat|
                pre.receivers.contains(pos) && #[trigger] left(
                    pre.inactive_joins(),
                    pos,
                    steps,
                    post,
                );
            lemma_left_later(pre.inactive_joins(), pos, steps, post);
            assert(pre.inactive_joins().coherent());
            lemma_left_coherent(pre.inactive_joins(), pos, steps, post);
            law_leaving_takes_from_nobody(pre.inactive_joins(), pos, steps, post);
        } else {
            lemma_behind_insert(pre.receivers, pre.tail(), pre.head);
            assert forall|p: nat| #[trigger] post.receivers.contains(p) implies p
                <= post.tail() by {
                assert(p == pre.tail() || pre.receivers.contains(p));
            }
        }
    }
}

proof fn lemma_sending_keeps_coherent<T, L: CapacityLimiter<T>>(
    pre: Channel<T, L>,
    msg: T,
    post: Channel<T, L>,
    result: Result<Option<T>, TrySendError<T, L::Error>>,
)
    requires
        pre.coherent(),
        broadcast_outcome(pre, msg, post, result),
        fits(post),
    ensures
        post.coherent(),
        pre.valid() ==> post.valid(),
{
    if !pre.closed && pre.receivers.len() > 0 {
        let (evicted, outcome) = choose|evicted: nat, outcome: Admission<L::Error>|
            {
                &&& #[trigger] admits(
                    pre.limiter,
                    msg,
                    pre.queue(),
                    pre.overflow,
                    evicted,
                    post.limiter,
                    outcome,
                )
                &&& broadcast_done(pre, msg, evicted, outcome, post, result)
            };
        lemma_admits_at_most(
            pre.limiter,
            msg,
            pre.queue(),
            pre.overflow,
            evicted,
            post.limiter,
            outcome,
        );
        lemma_behind_monotone(pre.receivers, pre.head, post.head);
        lemma_behind_all(pre.receivers, pre.tail());
    }
}

/// The states that a channel goes through, one operation after the other.
pub open spec fn history<T, L: CapacityLimiter<T>>(states: Seq<Channel<T, L>>) -> bool {
    &&& states.len() > 0
    &&& states[0].valid()
    &&& forall|i: int| 0 <= i < states.len() ==> fits(#[trigger] states[i])
    &&& forall|i: int, j: int|
        0 <= i && j == i + 1 && j < states.len() ==> changes(
            #[trigger] states[i],
            #[trigger] states[j],
        )
}

/// A channel is valid at all times, and what was sent before stays as it was at all times.
pub proof fn law_history_stays_valid<T, L: CapacityLimiter<T>>(
    states: Seq<Channel<T, L>>,
    i: int,
    j: int,
)
    requires
        history(states),
        0 <= i <= j < states.len(),
    ensures
        states[j].valid(),
        later(states[i], states[j]),
    decreases j,
{
    if j > 0 {
        let before = if i < j {
            i
        } else {
            j - 1
        };
        law_history_stays_valid(states, before, j - 1);
        law_changes_keep_validity(states[j - 1], states[j]);
        if i < j {
            law_later_transitive(states[i], states[j - 1], states[j]);
        }
    }
}

/// There is a reason for the channel to be closed at the moment `k`: it has just been closed, or
/// there is no sender, or no receiver at all.
pub open spec fn closes_at<T, L>(states: Seq<Channel<T, L>>, k: int) -> bool {
    ||| k > 0 && states[k] == states[k - 1].closing()
    ||| states[k].senders == 0
    ||| states[k].receivers.len() == 0 && states[k].inactive == 0
}

/// A channel that was open is closed exactly if there was a reason at some moment: somebody closed
/// it, or all senders were gone, or all receivers, active and inactive, were gone.
pub proof fn law_closed_exactly_with_reason<T, L: CapacityLimiter<T>>(states: Seq<Channel<T, L>>)
    requires
        history(states),
        !states[0].closed,
    ensures
        states.last().closed <==> exists|k: int|
            0 <= k < states.len() && #[trigger] closes_at(states, k),
{
    if exists|k: int| 0 <= k < states.len() && #[trigger] closes_at(states, k) {
        let k = choose|k: int| 0 <= k < states.len() && #[trigger] closes_at(states, k);
        law_history_stays_valid(states, k, states.len() - 1);
        law_history_stays_valid(states, k, k);
    }
    if states.last().closed {
        lemma_closed_for_a_reason(states, states.len() - 1);
    }
}

proof fn lemma_closed_for_a_reason<T, L: CapacityLimiter<T>>(
    states: Seq<Channel<T, L>>,
    n: int,
)
    requires
        history(states),
        !states[0].closed,
        0 <= n < states.len(),
        states[n].closed,
    ensures
        exists|k: int| 0 <= k <= n && #[trigger] closes_at(states, k),
    decreases n,
{
    if states[n - 1].closed {
        lemma_closed_for_a_reason(states, n - 1);
    } else {
        law_history_stays_valid(states, n - 1, n - 1);
        lemma_closes_with_reason(states[n - 1], states[n]);
        assert(closes_at(states, n));
    }
}

proof fn lemma_closes_with_reason<T, L: CapacityLimiter<T>>(
    pre: Channel<T, L>,
    post: Channel<T, L>,
)
    requires
        pre.valid(),
        fits(post),
        changes(pre, post),
        !pre.closed,
        post.closed,
    ensures
        post == pre.closing() || post.senders == 0 || (post.receivers.len() == 0 && post.inactive
            == 0),
{
    if exists|pos: nat, steps: nat|
        pre.receivers.contains(pos) && #[trigger] left(pre, pos, steps, post) {
        let (pos, steps) = choose|pos: nat, steps: nat|
            pre.receivers.contains(pos) && #[trigger] left(pre, pos, steps, post);
        law_leaving_takes_from_nobody(pre, pos, steps, post);
    } else if exists|pos: nat, steps: nat|
        pre.receivers.contains(pos) && #[trigger] left(pre.inactive_joins(), pos, steps, post) {
        let (pos, steps) = choose|pos: nat, steps: nat|
            pre.receivers.contains(pos) && #[trigger] left(pre.inactive_joins(), pos, steps, post);
        lemma_left_later(pre.inactive_joins(), pos, steps, post);
        assert(pre.inactive_joins().coherent());
        law_leaving_takes_from_nobody(pre.inactive_joins(), pos, steps, post);
    }
}

/// What is sent is what is received: a message that has been sent gets the next free number, and
/// whoever reads at that number, now or later, reads that message, as long as the channel holds
/// it.
pub proof fn law_read_gives_what_was_sent<T, L: CapacityLimiter<T>>(
    pre: Channel<T, L>,
    msg: T,
    post: Channel<T, L>,
    result: Result<Option<T>, TrySendError<T, L::Error>>,
    now: Channel<T, L>,
)
    requires
        broadcast_outcome(pre, msg, post, result),
        result is Ok,
        later(post, now),
    ensures
        post.tail() == pre.tail() + 1,
        now.head <= pre.tail() ==> now.reads(pre.tail()) == Ok::<T, TryRecvError>(msg),
        now.head > pre.tail() ==> now.reads(pre.tail()) is Err,
{
    assert(post.sent[pre.tail() as int] == msg);
    assert(now.sent[pre.tail() as int] == msg);
}

/// Each message is there for every receiver: right after it was sent, all active receivers wait
/// for it, and none of them is past it.
pub proof fn law_message_awaits_every_receiver<T, L: CapacityLimiter<T>>(
    pre: Channel<T, L>,
    msg: T,
    post: Channel<T, L>,
    result: Result<Option<T>, TrySendError<T, L::Error>>,
)
    requires
        pre.coherent(),
        broadcast_outcome(pre, msg, post, result),
        result is Ok,
    ensures
        post.receivers == pre.receivers,
        post.waiting(pre.tail()) == pre.receivers.len(),
        forall|p: nat| #[trigger] post.receivers.contains(p) ==> p <= pre.tail(),
{
    lemma_behind_all(pre.receivers, pre.tail());
}

/// A receiver reads each message once: after it has read the message at its position, one
/// receiver less waits for that message, as many as before wait for any other one, and the
/// receiver waits for it no longer. A message leaves the channel exactly when the last receiver
/// has read it.
pub proof fn law_each_receiver_reads_once<T, L: CapacityLimiter<T>>(
    pre: Channel<T, L>,
    pos: nat,
    post: Channel<T, L>,
    other: nat,
)
    requires
        pre.coherent(),
        pre.receivers.contains(pos),
        pre.reads(pos) is Ok,
        received(pre, pos, post),
        other != pos,
    ensures
        post.waiting(pos) + 1 == pre.waiting(pos),
        post.waiting(other) == pre.waiting(other),
        pre.next(pos) == pos + 1,
        post.receivers == pre.receivers.remove(pos).insert(pos + 1),
        post.head <= pos <==> post.waiting(pos) > 0,
{
    lemma_behind_moved(pre.receivers, pos, pos + 1, pos);
    lemma_behind_moved(pre.receivers, pos, pos + 1, other);
    if pre.head < pos {
        lemma_behind_strict(pre.receivers, pre.head, pos, pos);
    }
}

/// A receiver that keeps receiving gets an unbroken run of the log: if it starts at `pos` and
/// receives a message at each of the moments `moments`, one after the other, then these are the
/// messages with the numbers from `pos` on, in order, whatever else happens meanwhile.
pub proof fn law_receives_in_order<T, L>(
    moments: Seq<Channel<T, L>>,
    pos: nat,
    received: Seq<T>,
    now: Channel<T, L>,
)
    requires
        received.len() == moments.len(),
        forall|k: int|
            0 <= k < moments.len() ==> (#[trigger] moments[k]).reads((pos + k) as nat) == Ok::<
                T,
                TryRecvError,
            >(received[k]),
        forall|k: int| 0 <= k < moments.len() ==> later(#[trigger] moments[k], now),
    ensures
        forall|k: int|
            0 <= k < moments.len() ==> (#[trigger] moments[k]).next((pos + k) as nat) == pos + k
                + 1,
        moments.len() > 0 ==> pos + moments.len() <= now.tail() && received == now.sent.subrange(
            pos as int,
            (pos + moments.len()) as int,
        ),
{
    if moments.len() > 0 {
        let n = moments.len() as int;
        let last = moments[n - 1];
        assert(last.reads((pos + (n - 1)) as nat) is Ok);
        assert forall|k: int| 0 <= k < n implies received[k] == now.sent[pos + k] by {
            let at = moments[k];
            assert(at.reads((pos + k) as nat) == Ok::<T, TryRecvError>(received[k]));
            assert(at.sent[pos + k] == now.sent[pos + k]);
        }
        assert(received =~= now.sent.subrange(pos as int, (pos + n) as int));
    }
}

/// How far an attempt to receive gets a receiver: past one message that it got, or past as many as
/// it missed.
pub open spec fn advance<T>(answer: Result<T, TryRecvError>) -> nat {
    match answer {
        Ok(_) => 1,
        Err(TryRecvError::Overflowed(n)) => n as nat,
        Err(_) => 0,
    }
}

/// How far attempts with these answers get a receiver.
pub open spec fn advanced<T>(answers: Seq<Result<T, TryRecvError>>) -> nat
    decreases answers.len(),
{
    if answers.len() == 0 {
        0
    } else {
        advanced(answers.drop_last()) + advance(answers.last())
    }
}

/// A receiver always knows where it is in the log, also after it missed messages: if it starts at
/// `positions[0]` and attempts to receive at each of the moments `moments`, whatever else happens
/// meanwhile, then at each of them it is as many messages further as it has received and has been
/// told that it missed, and what it receives is the message with that number.
pub proof fn law_receives_by_number<T, L>(
    moments: Seq<Channel<T, L>>,
    positions: Seq<nat>,
    answers: Seq<Result<T, TryRecvError>>,
    now: Channel<T, L>,
    k: int,
)
    requires
        positions.len() == moments.len() + 1,
        answers.len() == moments.len(),
        forall|i: int| 0 <= i < moments.len() ==> (#[trigger] moments[i]).coherent(),
        forall|i: int| 0 <= i < moments.len() ==> later(#[trigger] moments[i], now),
        forall|i: int|
            0 <= i < moments.len() ==> answers[i] == (#[trigger] moments[i]).reads(positions[i]),
        forall|i: int, j: int|
            0 <= i < moments.len() && j == i + 1 ==> #[trigger] positions[j] == (
            #[trigger] moments[i]).next(positions[i]),
        0 <= k <= moments.len(),
    ensures
        positions[k] == positions[0] + advanced(answers.take(k)),
        k < moments.len() ==> match answers[k] {
            Ok(m) => positions[k] < now.tail() && m == now.sent[positions[k] as int],
            Err(_) => true,
        },
    decreases k,
{
    if k > 0 {
        law_receives_by_number(moments, positions, answers, now, k - 1);
        let at = moments[k - 1];
        assert(positions[k] == at.next(positions[k - 1]));
        assert(answers.take(k).drop_last() =~= answers.take(k - 1));
        assert(answers.take(k).last() == answers[k - 1]);
    } else {
        assert(answers.take(0).len() == 0);
    }
    if k < moments.len() && answers[k] is Ok {
        let at = moments[k];
        assert(at.sent[positions[k] as int] == now.sent[positions[k] as int]);
    }
}

/// A receiver that joins gets nothing that was sent before, and starts with the first message
/// that is sent afterwards, as long as the channel still holds it.
pub proof fn law_new_receiver_starts_with_next<T, L>(
    pre: Channel<T, L>,
    now: Channel<T, L>,
)
    requires
        later(pre.receiver_joins(), now),
    ensures
        pre.receiver_joins().receivers.contains(pre.tail()),
        pre.head <= pre.tail() ==> pre.receiver_joins().reads(pre.tail()) is Err,
        now.head <= pre.tail() < now.tail() ==> now.reads(pre.tail()) == Ok::<T, TryRecvError>(
            now.sent[pre.tail() as int],
        ),
{
}

/// Once every active receiver has read everything, and also where there is none, the channel is
/// empty.
pub proof fn law_all_read_means_empty<T, L>(channel: Channel<T, L>)
    requires
        channel.coherent(),
        forall|p: nat| #[trigger] channel.receivers.contains(p) ==> p >= channel.tail(),
    ensures
        channel.queue().len() == 0,
{
    lemma_behind_witness(channel.receivers, channel.head);
}

/// A closed channel takes no more messages, and hands each one back, but what it still holds can
/// be received; only then is the end reported.
pub proof fn law_closed_channel_drains<T, L: CapacityLimiter<T>>(
    pre: Channel<T, L>,
    msg: T,
    post: Channel<T, L>,
    result: Result<Option<T>, TrySendError<T, L::Error>>,
    pos: nat,
)
    requires
        pre.closed,
        broadcast_outcome(pre, msg, post, result),
    ensures
        post == pre,
        result == Err::<Option<T>, TrySendError<T, L::Error>>(TrySendError::Closed(msg)),
        pre.head <= pos < pre.tail() ==> pre.reads(pos) == Ok::<T, TryRecvError>(
            pre.sent[pos as int],
        ),
        pre.head <= pos && pos >= pre.tail() ==> pre.reads(pos) == Err::<T, _>(
            TryRecvError::Closed,
        ),
{
}

/// Closing a channel takes no message away from anybody; it only turns the report that there is
/// nothing yet into the report that there will be nothing any more. Closing it again changes
/// nothing.
pub proof fn law_closing_keeps_messages<T, L>(pre: Channel<T, L>, pos: nat)
    ensures
        pre.closing().closed,
        pre.closing().queue() == pre.queue(),
        pre.closing().reads(pos) == (match pre.reads(pos) {
            Err(TryRecvError::Empty) => Err(TryRecvError::Closed),
            other => other,
        }),
        pre.closing().closing() == pre.closing(),
{
}

/// The channel closes with its last sender, and not before.
pub proof fn law_last_sender_closes<T, L>(pre: Channel<T, L>)
    requires
        pre.senders > 0,
    ensures
        pre.sender_leaves().closed == (pre.closed || pre.senders == 1),
        pre.sender_leaves().queue() == pre.queue(),
{
}

/// The channel closes with its last receiver, unless an inactive one keeps it open.
pub proof fn law_last_receiver_closes<T, L: CapacityLimiter<T>>(
    pre: Channel<T, L>,
    pos: nat,
    post: Channel<T, L>,
)
    requires
        pre.coherent(),
        pre.receivers.contains(pos),
        left(pre, pos, steps_to_tail(pre, pos), post),
    ensures
        post.receivers.len() == pre.receivers.len() - 1,
        post.closed == (pre.closed || (pre.receivers.len() == 1 && pre.inactive == 0)),
        pre.receivers.len() == 1 ==> post.queue().len() == 0,
{
    law_leaving_takes_from_nobody(pre, pos, steps_to_tail(pre, pos), post);
    if pre.receivers.len() == 1 {
        lemma_left_coherent(pre, pos, steps_to_tail(pre, pos), post);
        assert forall|p: nat| !(#[trigger] post.receivers.contains(p)) by {
            assert(post.receivers.count(p) <= post.receivers.len());
        }
        law_all_read_means_empty(post);
    }
}

proof fn lemma_left_coherent<T, L: CapacityLimiter<T>>(
    pre: Channel<T, L>,
    pos: nat,
    steps: nat,
    post: Channel<T, L>,
)
    requires
        pre.coherent(),
        pre.receivers.contains(pos),
        left(pre, pos, steps, post),
    ensures
        post.coherent(),
    decreases steps,
{
    if steps == 0 {
        lemma_behind_remove(pre.receivers, pos, pre.head);
        assert forall|p: nat| #[trigger] post.receivers.contains(p) implies p <= post.tail() by {
            assert(pre.receivers.contains(p));
        }
    } else {
        let mid = choose|mid: Channel<T, L>|
            #[trigger] received(pre, pos, mid) && left(
                mid,
                pre.next(pos),
                (steps - 1) as nat,
                post,
            );
        lemma_received_coherent(pre, pos, mid);
        lemma_left_coherent(mid, pre.next(pos), (steps - 1) as nat, post);
    }
}

/// A channel whose last receiver has been deactivated stays open, but refuses every message until
/// a receiver is activated, and hands it back.
pub proof fn law_deactivating_keeps_open<T, L: CapacityLimiter<T>>(
    pre: Channel<T, L>,
    pos: nat,
    mid: Channel<T, L>,
    msg: T,
    post: Channel<T, L>,
    result: Result<Option<T>, TrySendError<T, L::Error>>,
)
    requires
        pre.coherent(),
        pre.inactive < usize::MAX,
        pre.receivers.contains(pos),
        left(pre.inactive_joins(), pos, steps_to_tail(pre, pos), mid),
        broadcast_outcome(mid, msg, post, result),
    ensures
        mid.closed == pre.closed,
        mid.receivers.len() == pre.receivers.len() - 1,
        mid.inactive == pre.inactive + 1,
        !pre.closed && pre.receivers.len() == 1 ==> post == mid && result == Err::<
            Option<T>,
            TrySendError<T, L::Error>,
        >(TrySendError::Inactive(msg)),
        mid.receiver_activates().inactive_leaves().receivers.len() == pre.receivers.len(),
        mid.receiver_activates().inactive_leaves().inactive == pre.inactive,
        mid.receiver_activates().inactive_leaves().closed == pre.closed,
{
    assert(pre.inactive_joins().coherent());
    law_leaving_takes_from_nobody(pre.inactive_joins(), pos, steps_to_tail(pre, pos), mid);
}

/// A message that could not be sent always comes back in the error, and without overflow mode the
/// log is as it was.
pub proof fn law_refused_message_comes_back<T, L: CapacityLimiter<T>>(
    pre: Channel<T, L>,
    msg: T,
    post: Channel<T, L>,
    error: TrySendError<T, L::Error>,
)
    requires
        broadcast_outcome(pre, msg, post, Err(error)),
    ensures
        error.unsent() == msg,
        post.sent == pre.sent,
        post.receivers == pre.receivers,
        !pre.overflow ==> post == (Channel { limiter: post.limiter, ..pre }),
{
    if !pre.closed && pre.receivers.len() > 0 {
        let (evicted, outcome) = choose|evicted: nat, outcome: Admission<L::Error>|
            {
                &&& #[trigger] admits(
                    pre.limiter,
                    msg,
                    pre.queue(),
                    pre.overflow,
                    evicted,
                    post.limiter,
                    outcome,
                )
                &&& broadcast_done(pre, msg, evicted, outcome, post, Err(error))
            };
    }
}

/// A waiting send goes on exactly after the errors that may pass, and keeps its message; it ends
/// with an error that holds its message otherwise.
pub proof fn law_retry_keeps_message<T, E>(error: TrySendError<T, E>)
    ensures
        error.retryable() == (error.send_error() is Ok),
        match error.send_error() {
            Ok(msg) => msg == error.unsent(),
            Err(e) => e.unsent() == error.unsent(),
        },
{
}

/// A receiver that missed messages learns how many, and goes on with the oldest one that is left.
pub proof fn law_overflow_counts_missed<T, L: CapacityLimiter<T>>(
    pre: Channel<T, L>,
    pos: nat,
    post: Channel<T, L>,
)
    requires
        pre.coherent(),
        pre.receivers.contains(pos),
        pos < pre.head,
        received(pre, pos, post),
    ensures
        pre.reads(pos) matches Err(TryRecvError::Overflowed(n)) && n == pre.head - pos,
        pre.next(pos) == pre.head == post.head,
        post.queue() == pre.queue(),
        pre.queue().len() > 0 ==> post.reads(post.head) == Ok::<T, TryRecvError>(pre.queue()[0]),
{
}

/// Nobody has missed a message that is still to be read: no receiver is before the head.
pub open spec fn nobody_missed<T, L>(channel: Channel<T, L>) -> bool {
    forall|p: nat| #[trigger] channel.receivers.contains(p) ==> channel.head <= p
}

/// Without overflow mode nobody misses a message: as long as it is not enabled and the capacity is
/// not adjusted, no operation takes a message away from a receiver that has to read it.
pub proof fn law_nobody_misses_without_overflow<T, L: CapacityLimiter<T>>(
    pre: Channel<T, L>,
    post: Channel<T, L>,
)
    requires
        pre.coherent(),
        !pre.overflow,
        nobody_missed(pre),
        operates(pre, post),
    ensures
        nobody_missed(post),
        forall|p: nat| #[trigger]
            post.receivers.contains(p) ==> !(post.reads(p) matches Err(
                TryRecvError::Overflowed(_),
            )),
{
    if exists|pos: nat| pre.receivers.contains(pos) && #[trigger] received(pre, pos, post) {
        let pos = choose|pos: nat|
            pre.receivers.contains(pos) && #[trigger] received(pre, pos, post);
        lemma_received_misses_nothing(pre, pos, post);
    } else if exists|pos: nat, steps: nat|
        pre.receivers.contains(pos) && #[trigger] left(pre, pos, steps, post) {
        let (pos, steps) = choose|pos: nat, steps: nat|
            pre.receivers.contains(pos) && #[trigger] left(pre, pos, steps, post);
        lemma_left_misses_nothing(pre, pos, steps, post);
    } else if exists|pos: nat, steps: nat|
        pre.receivers.contains(pos) && #[trigger] left(pre.inactive_joins(), pos, steps, post) {
        let (pos, steps) = choose|pos: nat, steps: nat|
            pre.receivers.contains(pos) && #[trigger] left(pre.inactive_joins(), pos, steps, post);
        lemma_left_misses_nothing(pre.inactive_joins(), pos, steps, post);
    } else {
        assert forall|p: nat| #[trigger] post.receivers.contains(p) implies post.head <= p by {
            assert(p == pre.tail() || pre.receivers.contains(p));
        }
    }
}

proof fn lemma_received_misses_nothing<T, L: CapacityLimiter<T>>(
    pre: Channel<T, L>,
    pos: nat,
    post: Channel<T, L>,
)
    requires
        nobody_missed(pre),
        pre.receivers.contains(pos),
        received(pre, pos, post),
    ensures
        nobody_missed(post),
        post.receivers.contains(pre.next(pos)),
{
    lemma_moved_len(pre.receivers, pos, pre.next(pos));
    if pre.releases(pos) {
        // Nobody else was waiting for the message that went.
        lemma_behind_remove(pre.receivers, pos, pos);
        lemma_behind_witness(pre.receivers.remove(pos), pos);
        assert forall|p: nat| #[trigger] post.receivers.contains(p) implies post.head <= p by {
            if p != pos + 1 {
                assert(pre.receivers.remove(pos).contains(p));
            }
        }
    }
}

proof fn lemma_left_misses_nothing<T, L: CapacityLimiter<T>>(
    pre: Channel<T, L>,
    pos: nat,
    steps: nat,
    post: Channel<T, L>,
)
    requires
        nobody_missed(pre),
        pre.receivers.contains(pos),
        left(pre, pos, steps, post),
    ensures
        nobody_missed(post),
    decreases steps,
{
    if steps == 0 {
        assert forall|p: nat| #[trigger] post.receivers.contains(p) implies post.head <= p by {
            assert(pre.receivers.contains(p));
        }
    } else {
        let mid = choose|mid: Channel<T, L>|
            #[trigger] received(pre, pos, mid) && left(
                mid,
                pre.next(pos),
                (steps - 1) as nat,
                post,
            );
        lemma_received_misses_nothing(pre, pos, mid);
        lemma_left_misses_nothing(mid, pre.next(pos), (steps - 1) as nat, post);
    }
}

/// What an attempt to receive at `pos` answers, and what becomes of the channel.
///
/// A receiver that is before the head is told how many messages it missed, and goes to the head.
/// One that is in the log gets the message there, and goes on by one. One that is at the end is
/// told that the channel is closed if it is, and that it is empty otherwise, and stays; nothing
/// changes then. The message leaves the channel exactly if nobody else still has to read it; then,
/// and only then, the limiter is told, and one waiting sender is woken unless the channel is in
/// overflow mode. Nothing else ever changes.
pub proof fn law_receive_in_full<T, L: CapacityLimiter<T>>(
    pre: Channel<T, L>,
    pos: nat,
    post: Channel<T, L>,
)
    requires
        pre.coherent(),
        pre.receivers.contains(pos),
        received(pre, pos, post),
    ensures
        pos < pre.head ==> {
            &&& pre.reads(pos) matches Err(TryRecvError::Overflowed(n)) && n == pre.head - pos
            &&& pre.next(pos) == pre.head
        },
        pre.head <= pos < pre.sent.len() ==> {
            &&& pre.reads(pos) == Ok::<T, TryRecvError>(pre.sent[pos as int])
            &&& pre.next(pos) == pos + 1
        },
        pre.head <= pos && pos >= pre.sent.len() ==> {
            &&& pre.closed ==> pre.reads(pos) == Err::<T, _>(TryRecvError::Closed)
            &&& !pre.closed ==> pre.reads(pos) == Err::<T, _>(TryRecvError::Empty)
            &&& pre.next(pos) == pos
            &&& post == pre
        },
        ({
            let last = pos == pre.head && pos < pre.sent.len() && forall|p: nat| #[trigger]
                pre.receivers.remove(pos).contains(p) ==> p > pos;
            &&& last == pre.releases(pos)
            &&& post == Channel {
                head: if last {
                    pre.head + 1
                } else {
                    pre.head
                },
                limiter: post.limiter,
                receivers: pre.receivers.remove(pos).insert(pre.next(pos)),
                send_ops: if last && !pre.overflow {
                    pre.send_ops.push(Signal::Notify(1))
                } else {
                    pre.send_ops
                },
                ..pre
            }
            &&& last ==> L::removed(
                pre.limiter,
                pre.sent[pos as int],
                pre.sent.skip(pos as int + 1),
                post.limiter,
            )
            &&& !last ==> post.limiter == pre.limiter
        }),
{
    lemma_moved_len(pre.receivers, pos, pre.next(pos));
    lemma_behind_remove(pre.receivers, pos, pos);
    lemma_behind_witness(pre.receivers.remove(pos), pos);
    if pre.head < pre.sent.len() {
        assert(pre.sent.skip(pre.head as int).skip(1) =~= pre.sent.skip(pre.head as int + 1));
    }
    if pre.head <= pos && pos >= pre.sent.len() {
        assert(pre.receivers.remove(pos).insert(pos) =~= pre.receivers);
        assert(post =~= pre);
    }
}

/// What an attempt to send answers, and what becomes of the channel.
///
/// A closed channel hands the message back, and so does one without active receivers; neither
/// changes. Otherwise the limiter is asked, with the messages that are held. Without overflow mode
/// its answer to the first question decides. In overflow mode the oldest messages go one by one,
/// each because the limiter refused for a reason that is not fatal. A message that is taken is
/// added to the log, and wakes everybody who waits to receive.
pub proof fn law_send_in_full<T, L: CapacityLimiter<T>>(
    pre: Channel<T, L>,
    msg: T,
    post: Channel<T, L>,
    result: Result<Option<T>, TrySendError<T, L::Error>>,
)
    requires
        pre.coherent(),
        broadcast_outcome(pre, msg, post, result),
    ensures
        pre.closed ==> {
            &&& post == pre
            &&& result == Err::<Option<T>, TrySendError<T, L::Error>>(TrySendError::Closed(msg))
        },
        !pre.closed && pre.receivers.len() == 0 ==> {
            &&& post == pre
            &&& result == Err::<Option<T>, TrySendError<T, L::Error>>(TrySendError::Inactive(msg))
        },
        !pre.closed && pre.receivers.len() > 0 ==> {
            &&& pre.head <= post.head <= pre.sent.len()
            &&& !pre.overflow ==> post.head == pre.head
            &&& match result {
                Ok(ret) => {
                    &&& post == Channel {
                        sent: pre.sent.push(msg),
                        head: post.head,
                        limiter: post.limiter,
                        recv_ops: pre.recv_ops.push(Signal::Notify(usize::MAX)),
                        ..pre
                    }
                    &&& ret == if post.head > pre.head {
                        Some(pre.sent[post.head - 1])
                    } else {
                        None
                    }
                },
                Err(TrySendError::Full { msg: unsent, error }) => {
                    &&& unsent == msg
                    &&& !pre.overflow
                    &&& pre.head < pre.sent.len()
                    &&& post.limiter.fatal(error, false)
                    &&& post == Channel { limiter: post.limiter, ..pre }
                },
                Err(TrySendError::Rejected { msg: unsent, error }) => {
                    &&& unsent == msg
                    &&& post.head == pre.sent.len() || post.limiter.fatal(error, true)
                    &&& post == Channel { head: post.head, limiter: post.limiter, ..pre }
                },
                Err(_) => false,
            }
            &&& exists|at: L, answer: Result<(), L::Error>|
                {
                    &&& #[trigger] L::added(
                        at,
                        msg,
                        pre.sent.skip(post.head as int),
                        post.limiter,
                        answer,
                    )
                    &&& post.head == pre.head ==> at == pre.limiter
                    &&& match answer {
                        Ok(_) => result is Ok,
                        Err(e) => result matches Err(error) && (error == TrySendError::Full {
                            msg,
                            error: e,
                        } || error == TrySendError::Rejected { msg, error: e }),
                    }
                }
            &&& post.head > pre.head ==> exists|refused: L, e: L::Error|
                {
                    &&& #[trigger] L::added(
                        pre.limiter,
                        msg,
                        pre.sent.skip(pre.head as int),
                        refused,
                        Err(e),
                    )
                    &&& refused.fatal(e, false)
                }
        },
{
    if !pre.closed && pre.receivers.len() > 0 {
        let (evicted, outcome) = choose|evicted: nat, outcome: Admission<L::Error>|
            {
                &&& #[trigger] admits(
                    pre.limiter,
                    msg,
                    pre.queue(),
                    pre.overflow,
                    evicted,
                    post.limiter,
                    outcome,
                )
                &&& broadcast_done(pre, msg, evicted, outcome, post, result)
            };
        lemma_admits_at_most(
            pre.limiter,
            msg,
            pre.queue(),
            pre.overflow,
            evicted,
            post.limiter,
            outcome,
        );
        lemma_admits_last_answer(
            pre.limiter,
            msg,
            pre.queue(),
            pre.overflow,
            evicted,
            post.limiter,
            outcome,
        );
        assert(pre.queue().skip(evicted as int) =~= pre.sent.skip(post.head as int));
        assert(evicted == 0 ==> post =~= Channel { head: pre.head, ..post });
    }
}

/// The last answer of the limiter decides what becomes of a message.
proof fn lemma_admits_last_answer<T, L: CapacityLimiter<T>>(
    pre: L,
    msg: T,
    queue: Seq<T>,
    overflow: bool,
    evicted: nat,
    post: L,
    outcome: Admission<L::Error>,
)
    requires
        admits(pre, msg, queue, overflow, evicted, post, outcome),
    ensures
        evicted <= queue.len(),
        evicted > 0 ==> overflow,
        exists|at: L, answer: Result<(), L::Error>|
            {
                &&& #[trigger] L::added(at, msg, queue.skip(evicted as int), post, answer)
                &&& evicted == 0 ==> at == pre
                &&& match answer {
                    Ok(_) => outcome is Added,
                    Err(e) => outcome == Admission::Full(e) || outcome == Admission::Rejected(e),
                }
            },
        match outcome {
            Admission::Added => true,
            Admission::Full(e) => !overflow && evicted < queue.len() && post.fatal(e, false),
            Admission::Rejected(e) => evicted == queue.len() || post.fatal(e, true),
        },
        evicted > 0 ==> exists|refused: L, e: L::Error|
            #[trigger] L::added(pre, msg, queue, refused, Err(e)) && refused.fatal(e, false),
    decreases evicted,
{
    if evicted == 0 {
        assert(queue.skip(0) =~= queue);
        let answer = match outcome {
            Admission::Added => Ok(()),
            Admission::Full(e) => Err(e),
            Admission::Rejected(e) => Err(e),
        };
        assert(L::added(pre, msg, queue.skip(evicted as int), post, answer));
    } else {
        let (refused, e, freed) = choose|refused: L, e: L::Error, freed: L|
            {
                &&& #[trigger] L::added(pre, msg, queue, refused, Err(e))
                &&& refused.fatal(e, false)
                &&& #[trigger] L::removed(refused, queue[0], queue.skip(1), freed)
                &&& admits(
                    freed,
                    msg,
                    queue.skip(1),
                    overflow,
                    (evicted - 1) as nat,
                    post,
                    outcome,
                )
            };
        lemma_admits_last_answer(
            freed,
            msg,
            queue.skip(1),
            overflow,
            (evicted - 1) as nat,
            post,
            outcome,
        );
        assert(queue.skip(1).skip(evicted - 1) =~= queue.skip(evicted as int));
    }
}

/// Every message that goes to make room for another one goes because the limiter refused the new
/// one with an error that is not fatal, and the limiter is told of it: `k` of the oldest have gone
/// before.
pub proof fn law_every_eviction_has_a_reason<T, L: CapacityLimiter<T>>(
    pre: L,
    msg: T,
    queue: Seq<T>,
    overflow: bool,
    evicted: nat,
    post: L,
    outcome: Admission<L::Error>,
    k: nat,
)
    requires
        admits(pre, msg, queue, overflow, evicted, post, outcome),
        k < evicted,
    ensures
        overflow,
        k < queue.len(),
        exists|at: L, refused: L, e: L::Error, freed: L|
            {
                &&& #[trigger] L::added(at, msg, queue.skip(k as int), refused, Err(e))
                &&& refused.fatal(e, false)
                &&& #[trigger] L::removed(
                    refused,
                    queue[k as int],
                    queue.skip(k as int + 1),
                    freed,
                )
                &&& k == 0 ==> at == pre
            },
    decreases k,
{
    let (refused, e, freed) = choose|refused: L, e: L::Error, freed: L|
        {
            &&& #[trigger] L::added(pre, msg, queue, refused, Err(e))
            &&& refused.fatal(e, false)
            &&& #[trigger] L::removed(refused, queue[0], queue.skip(1), freed)
            &&& admits(freed, msg, queue.skip(1), overflow, (evicted - 1) as nat, post, outcome)
        };
    if k == 0 {
        assert(queue.skip(0) =~= queue);
        assert(L::added(pre, msg, queue.skip(k as int), refused, Err(e)));
        assert(L::removed(refused, queue[k as int], queue.skip(k as int + 1), freed));
    } else {
        law_every_eviction_has_a_reason(
            freed,
            msg,
            queue.skip(1),
            overflow,
            (evicted - 1) as nat,
            post,
            outcome,
            (k - 1) as nat,
        );
        let rest = queue.skip(1);
        assert(rest.skip(k - 1) =~= queue.skip(k as int));
        assert(rest.skip(k - 1 + 1) =~= queue.skip(k as int + 1));
        let (at, refused, e, freed) = choose|at: L, refused: L, e: L::Error, freed: L|
            {
                &&& #[trigger] L::added(at, msg, rest.skip(k - 1), refused, Err(e))
                &&& refused.fatal(e, false)
                &&& #[trigger] L::removed(refused, rest[k - 1], rest.skip(k - 1 + 1), freed)
            };
        assert(L::added(at, msg, queue.skip(k as int), refused, Err(e)));
        assert(L::removed(refused, queue[k as int], queue.skip(k as int + 1), freed));
    }
}

/// A limiter that has room cannot be overruled: a message that it can only agree to is taken, and
/// nothing goes for it.
pub proof fn law_granted_message_is_taken<T, L: CapacityLimiter<T>>(
    pre: Channel<T, L>,
    msg: T,
    post: Channel<T, L>,
    result: Result<Option<T>, TrySendError<T, L::Error>>,
)
    requires
        pre.coherent(),
        !pre.closed,
        pre.receivers.len() > 0,
        broadcast_outcome(pre, msg, post, result),
        forall|limiter: L, answer: Result<(), L::Error>| #[trigger]
            L::added(pre.limiter, msg, pre.sent.skip(pre.head as int), limiter, answer)
                ==> answer is Ok,
    ensures
        result == Ok::<Option<T>, TrySendError<T, L::Error>>(None),
        post.head == pre.head,
        post.sent == pre.sent.push(msg),
{
    law_send_in_full(pre, msg, post, result);
}

/// What a receiver that goes makes of the channel.
///
/// It is no longer counted. The messages that nobody else has to read go, and no others, and one
/// waiting sender is woken for each of them unless the channel is in overflow mode. An open channel
/// becomes closed exactly if no receiver is left, and then everybody is woken. Nothing else changes
/// but the limiter.
pub proof fn law_leaving_in_full<T, L: CapacityLimiter<T>>(
    pre: Channel<T, L>,
    pos: nat,
    post: Channel<T, L>,
)
    requires
        pre.coherent(),
        pre.receivers.contains(pos),
        left(pre, pos, steps_to_tail(pre, pos), post),
    ensures
        pre.head <= post.head <= pre.sent.len(),
        forall|p: nat| #[trigger]
            pre.receivers.remove(pos).contains(p) ==> post.head <= p || post.head == pre.head,
        post.head < pre.sent.len() ==> exists|p: nat|
            #[trigger] pre.receivers.remove(pos).contains(p) && p <= post.head,
        post.closed == (pre.closed || (pre.receivers.len() == 1 && pre.inactive == 0)),
        ({
            let gone = (post.head - pre.head) as nat;
            let told = if pre.overflow {
                pre.send_ops
            } else {
                pre.send_ops + Seq::new(gone, |i: int| Signal::Notify(1))
            };
            let closing = post.closed && !pre.closed;
            post == Channel {
                head: post.head,
                limiter: post.limiter,
                receivers: pre.receivers.remove(pos),
                closed: post.closed,
                send_ops: if closing {
                    told.push(Signal::Notify(usize::MAX))
                } else {
                    told
                },
                recv_ops: if closing {
                    pre.recv_ops.push(Signal::Notify(usize::MAX))
                } else {
                    pre.recv_ops
                },
                ..pre
            }
        }),
        pre.head == post.head ==> post.limiter == pre.limiter,
{
    let steps = steps_to_tail(pre, pos);
    law_leaving_takes_from_nobody(pre, pos, steps, post);
    lemma_left_coherent(pre, pos, steps, post);
    lemma_left_signals(pre, pos, steps, post);
    lemma_behind_witness(post.receivers, post.head);
    assert forall|p: nat| #[trigger] pre.receivers.remove(pos).contains(p) implies post.head <= p
        || post.head == pre.head by {
        let q = if p < pre.head {
            pre.head
        } else {
            p
        };
        lemma_behind_witness(post.receivers, q);
        assert(post.waiting(q) > 0);
    }
}

/// Whom a receiver that goes has woken.
proof fn lemma_left_signals<T, L: CapacityLimiter<T>>(
    pre: Channel<T, L>,
    pos: nat,
    steps: nat,
    post: Channel<T, L>,
)
    requires
        left(pre, pos, steps, post),
    ensures
        pre.head <= post.head,
        pre.head == post.head ==> post.limiter == pre.limiter,
        ({
            let gone = (post.head - pre.head) as nat;
            let told = if pre.overflow {
                pre.send_ops
            } else {
                pre.send_ops + Seq::new(gone, |i: int| Signal::Notify(1))
            };
            if post.closed && !pre.closed {
                &&& post.send_ops == told.push(Signal::Notify(usize::MAX))
                &&& post.recv_ops == pre.recv_ops.push(Signal::Notify(usize::MAX))
            } else {
                &&& post.send_ops == told
                &&& post.recv_ops == pre.recv_ops
            }
        }),
    decreases steps,
{
    let gone = (post.head - pre.head) as nat;
    let told = pre.send_ops + Seq::new(gone, |i: int| Signal::Notify(1));
    if steps > 0 {
        let mid = choose|mid: Channel<T, L>|
            #[trigger] received(pre, pos, mid) && left(
                mid,
                pre.next(pos),
                (steps - 1) as nat,
                post,
            );
        lemma_left_signals(mid, pre.next(pos), (steps - 1) as nat, post);
        if !pre.overflow {
            let rest = (post.head - mid.head) as nat;
            assert(mid.send_ops + Seq::new(rest, |i: int| Signal::Notify(1)) =~= told);
        }
    } else {
        assert(told =~= pre.send_ops);
    }
}

/// A receiver that goes leaves a limit on the number of elements as it is.
pub proof fn law_leaving_keeps_count_limit<T>(
    pre: Channel<T, ElementCountLimiter>,
    pos: nat,
    post: Channel<T, ElementCountLimiter>,
)
    requires
        pre.coherent(),
        left(pre, pos, steps_to_tail(pre, pos), post),
    ensures
        post.limiter == pre.limiter,
{
    lemma_left_keeps_count_limit(pre, pos, steps_to_tail(pre, pos), post);
}

/// What an adjustment of the capacity answers, and what becomes of the channel: the oldest messages
/// go as long as the limiter refuses for a reason that is not fatal, and nothing else changes.
pub proof fn law_adjustment_in_full<T, L: AdjustableCapacityLimiter<T>>(
    pre: Channel<T, L>,
    msg: L::Adjustment,
    post: Channel<T, L>,
    result: Result<(), L::Error>,
)
    requires
        pre.coherent(),
        adjust_outcome(pre, msg, post, result),
    ensures
        pre.head <= post.head <= pre.sent.len(),
        post == (Channel { head: post.head, limiter: post.limiter, ..pre }),
        exists|at: L, current: L::Adjustment, msg_post: L::Adjustment|
            {
                &&& #[trigger] L::adjusted(
                    at,
                    current,
                    pre.sent.skip(post.head as int),
                    post.limiter,
                    msg_post,
                    result,
                )
                &&& post.head == pre.head ==> at == pre.limiter && current == msg
            },
        result matches Err(e) ==> post.limiter.fatal(e, true) || post.head == pre.sent.len(),
        post.head > pre.head ==> exists|refused: L, msg_post: L::Adjustment, e: L::Error|
            {
                &&& #[trigger] L::adjusted(
                    pre.limiter,
                    msg,
                    pre.sent.skip(pre.head as int),
                    refused,
                    msg_post,
                    Err(e),
                )
                &&& refused.fatal(e, false)
            },
{
    let evicted = choose|evicted: nat|
        {
            &&& #[trigger] adjusts(pre.limiter, msg, pre.queue(), evicted, post.limiter, result)
            &&& post == Channel { head: pre.head + evicted, limiter: post.limiter, ..pre }
        };
    lemma_adjusts_at_most(pre.limiter, msg, pre.queue(), evicted, post.limiter, result);
    lemma_adjusts_last_answer(pre.limiter, msg, pre.queue(), evicted, post.limiter, result);
    assert(pre.queue().skip(evicted as int) =~= pre.sent.skip(post.head as int));
}

/// The last answer of the limiter is that of the adjustment.
proof fn lemma_adjusts_last_answer<T, L: AdjustableCapacityLimiter<T>>(
    pre: L,
    msg: L::Adjustment,
    queue: Seq<T>,
    evicted: nat,
    post: L,
    result: Result<(), L::Error>,
)
    requires
        adjusts(pre, msg, queue, evicted, post, result),
    ensures
        evicted <= queue.len(),
        exists|at: L, current: L::Adjustment, msg_post: L::Adjustment|
            {
                &&& #[trigger] L::adjusted(
                    at,
                    current,
                    queue.skip(evicted as int),
                    post,
                    msg_post,
                    result,
                )
                &&& evicted == 0 ==> at == pre && current == msg
            },
        result matches Err(e) ==> post.fatal(e, true) || evicted == queue.len(),
        evicted > 0 ==> exists|refused: L, msg_post: L::Adjustment, e: L::Error|
            {
                &&& #[trigger] L::adjusted(pre, msg, queue, refused, msg_post, Err(e))
                &&& refused.fatal(e, false)
            },
    decreases evicted,
{
    if evicted == 0 {
        assert(queue.skip(0) =~= queue);
        let msg_post = choose|msg_post: L::Adjustment|
            #[trigger] L::adjusted(pre, msg, queue, post, msg_post, result);
        assert(L::adjusted(pre, msg, queue.skip(evicted as int), post, msg_post, result));
    } else {
        let (refused, msg_post, e, freed) = choose|
            refused: L,
            msg_post: L::Adjustment,
            e: L::Error,
            freed: L,
        |
            {
                &&& #[trigger] L::adjusted(pre, msg, queue, refused, msg_post, Err(e))
                &&& refused.fatal(e, false)
                &&& #[trigger] L::removed(refused, queue[0], queue.skip(1), freed)
                &&& adjusts(freed, msg_post, queue.skip(1), (evicted - 1) as nat, post, result)
            };
        lemma_adjusts_last_answer(
            freed,
            msg_post,
            queue.skip(1),
            (evicted - 1) as nat,
            post,
            result,
        );
        assert(queue.skip(1).skip(evicted - 1) =~= queue.skip(evicted as int));
    }
}

/// What it means for a channel to be valid: no receiver is beyond the end of the log, somebody
/// still has to read the oldest message held, and an open channel has a sender and a receiver.
pub proof fn law_meaning_of_validity<T, L>(channel: Channel<T, L>, p: nat)
    requires
        channel.valid(),
    ensures
        channel.head <= channel.sent.len(),
        channel.queue().len() == channel.sent.len() - channel.head,
        channel.receivers.contains(p) ==> p <= channel.sent.len(),
        channel.head < channel.sent.len() ==> exists|q: nat|
            #[trigger] channel.receivers.contains(q) && q <= channel.head,
        !channel.closed ==> channel.senders > 0 && channel.receivers.len() + channel.inactive > 0,
{
    lemma_behind_witness(channel.receivers, channel.head);
}

/// How a limit on the number of elements answers: it takes one more element exactly if there are
/// fewer than it allows, calls itself full exactly if it would not, learns nothing from what is
/// added or removed, never refuses for good, and takes a new limit exactly if the elements fit.
pub proof fn law_count_limit_answers<T>(
    limit: ElementCountLimiter,
    item: T,
    contents: Seq<T>,
    post: ElementCountLimiter,
    answer: Result<(), FullError>,
    full: bool,
    error: FullError,
    fatal: bool,
)
    ensures
        <ElementCountLimiter as CapacityLimiter<T>>::added(limit, item, contents, post, answer)
            <==> post.0 == limit.0 && (answer is Ok <==> contents.len() < limit.0),
        <ElementCountLimiter as CapacityLimiter<T>>::full(limit, contents, full) <==> (full
            <==> !<ElementCountLimiter as CapacityLimiter<T>>::added(
            limit,
            item,
            contents,
            limit,
            Ok(()),
        )),
        <ElementCountLimiter as CapacityLimiter<T>>::full(limit, contents, full) <==> full == (
        contents.len() >= limit.0),
        <ElementCountLimiter as CapacityLimiter<T>>::removed(limit, item, contents, post)
            <==> post.0 == limit.0,
        <ElementCountLimiter as CapacityLimiter<T>>::fatal(limit, error, fatal) <==> !fatal,
{
    match answer {
        Ok(unit) => {
            assert(unit == ());
        },
        Err(e) => {
            assert(e == FullError);
        },
    }
}

/// How a limit on the number of elements answers an adjustment.
pub proof fn law_count_limit_adjusts<T>(
    limit: ElementCountLimiter,
    msg: usize,
    contents: Seq<T>,
    post: ElementCountLimiter,
    msg_post: usize,
    answer: Result<(), FullError>,
)
    ensures
        <ElementCountLimiter as AdjustableCapacityLimiter<T>>::adjusted(
            limit,
            msg,
            contents,
            post,
            msg_post,
            answer,
        ) <==> {
            &&& msg_post == msg
            &&& answer is Ok <==> contents.len() <= msg
            &&& post.0 == if contents.len() <= msg {
                msg
            } else {
                limit.0
            }
        },
{
    match answer {
        Ok(unit) => {
            assert(unit == ());
        },
        Err(e) => {
            assert(e == FullError);
        },
    }
}

/// A sender that is cloned and dropped again leaves no trace, and so do a receiver and an inactive
/// receiver.
pub proof fn law_clone_and_drop_cancel<T, L: CapacityLimiter<T>>(
    pre: Channel<T, L>,
    post: Channel<T, L>,
)
    requires
        pre.valid(),
        left(
            pre.receiver_joins(),
            pre.tail(),
            steps_to_tail(pre.receiver_joins(), pre.tail()),
            post,
        ),
    ensures
        pre.sender_joins().sender_leaves() == pre,
        post == pre,
        pre.inactive_joins().inactive_leaves() == pre,
{
    assert(pre.receivers.insert(pre.tail()).remove(pre.tail()) =~= pre.receivers);
    assert(steps_to_tail(pre.receiver_joins(), pre.tail()) == 0);
    assert(post =~= pre);
}

/// Everybody who waits to receive has been woken between `pre` and `post` if there is a reason: a
/// message was sent, or the channel was closed.
pub open spec fn receivers_woken<T, L>(pre: Channel<T, L>, post: Channel<T, L>) -> bool {
    &&& pre.recv_ops.is_prefix_of(post.recv_ops)
    &&& post.tail() > pre.tail() || (post.closed && !pre.closed) ==> exists|i: int|
        pre.recv_ops.len() <= i < post.recv_ops.len() && #[trigger] post.recv_ops[i]
            == Signal::Notify(usize::MAX)
}

/// Nobody waits in vain for a message, or for the end: every operation that sends a message or
/// closes the channel also wakes all those who have started to listen before it.
pub proof fn law_waiting_receivers_are_woken<T, L: CapacityLimiter<T>>(
    pre: Channel<T, L>,
    post: Channel<T, L>,
)
    requires
        pre.coherent(),
        operates(pre, post),
    ensures
        receivers_woken(pre, post),
{
    if exists|pos: nat, steps: nat|
        pre.receivers.contains(pos) && #[trigger] left(pre, pos, steps, post) {
        let (pos, steps) = choose|pos: nat, steps: nat|
            pre.receivers.contains(pos) && #[trigger] left(pre, pos, steps, post);
        lemma_left_wakes(pre, pos, steps, post);
    } else if exists|pos: nat, steps: nat|
        pre.receivers.contains(pos) && #[trigger] left(pre.inactive_joins(), pos, steps, post) {
        let (pos, steps) = choose|pos: nat, steps: nat|
            pre.receivers.contains(pos) && #[trigger] left(pre.inactive_joins(), pos, steps, post);
        lemma_left_wakes(pre.inactive_joins(), pos, steps, post);
    } else if post.recv_ops != pre.recv_ops {
        assert(post.recv_ops[pre.recv_ops.len() as int] == post.recv_ops.last());
    }
}

proof fn lemma_left_wakes<T, L: CapacityLimiter<T>>(
    pre: Channel<T, L>,
    pos: nat,
    steps: nat,
    post: Channel<T, L>,
)
    requires
        left(pre, pos, steps, post),
    ensures
        post.tail() == pre.tail(),
        post.closed == pre.closed ==> post.recv_ops == pre.recv_ops,
        post.closed != pre.closed ==> post.closed && post.recv_ops == pre.recv_ops.push(
            Signal::Notify(usize::MAX),
        ),
        receivers_woken(pre, post),
    decreases steps,
{
    if steps > 0 {
        let mid = choose|mid: Channel<T, L>|
            #[trigger] received(pre, pos, mid) && left(
                mid,
                pre.next(pos),
                (steps - 1) as nat,
                post,
            );
        lemma_left_wakes(mid, pre.next(pos), (steps - 1) as nat, post);
    }
    if post.closed && !pre.closed {
        assert(post.recv_ops[pre.recv_ops.len() as int] == Signal::Notify(usize::MAX));
    }
}

/// Nobody waits to receive in vain over several operations either.
pub proof fn law_waking_receivers_adds_up<T, L>(
    a: Channel<T, L>,
    b: Channel<T, L>,
    c: Channel<T, L>,
)
    requires
        receivers_woken(a, b),
        receivers_woken(b, c),
    ensures
        receivers_woken(a, c),
{
    if b.tail() > a.tail() || (b.closed && !a.closed) {
        let i = choose|i: int|
            a.recv_ops.len() <= i < b.recv_ops.len() && #[trigger] b.recv_ops[i]
                == Signal::Notify(usize::MAX);
        assert(c.recv_ops[i] == b.recv_ops[i]);
    }
}

/// Nobody waits to receive in vain at any time: whoever has started to listen by the moment `i` is
/// woken by the moment `j` if there is a reason.
pub proof fn law_receivers_woken_at_any_time<T, L: CapacityLimiter<T>>(
    states: Seq<Channel<T, L>>,
    i: int,
    j: int,
)
    requires
        history(states),
        0 <= i <= j < states.len(),
    ensures
        receivers_woken(states[i], states[j]),
    decreases j - i,
{
    if i < j {
        law_receivers_woken_at_any_time(states, i, j - 1);
        law_history_stays_valid(states, i, j - 1);
        assert(changes(states[j - 1], states[j]));
        if operates(states[j - 1], states[j]) {
            law_waiting_receivers_are_woken(states[j - 1], states[j]);
        }
        law_waking_receivers_adds_up(states[i], states[j - 1], states[j]);
    }
}

/// Those who wait to send have been woken between `pre` and `post` if there is a reason: at least
/// one of them if a message left the channel, and all of them if the channel was closed.
pub open spec fn senders_woken<T, L>(pre: Channel<T, L>, post: Channel<T, L>) -> bool {
    &&& pre.send_ops.is_prefix_of(post.send_ops)
    &&& post.head > pre.head ==> exists|i: int|
        pre.send_ops.len() <= i < post.send_ops.len() && (#[trigger] post.send_ops[i] matches
            Signal::Notify(n) && n >= 1)
    &&& post.closed && !pre.closed ==> exists|i: int|
        pre.send_ops.len() <= i < post.send_ops.len() && #[trigger] post.send_ops[i]
            == Signal::Notify(usize::MAX)
}

/// Without overflow mode, nobody waits in vain for room, or for the end: every operation by which
/// a message leaves the channel also wakes at least one of those who have started to listen before
/// it, and every operation which closes the channel wakes all of them. The first receiver that is
/// activated wakes one of them.
pub proof fn law_waiting_senders_are_woken<T, L: CapacityLimiter<T>>(
    pre: Channel<T, L>,
    post: Channel<T, L>,
)
    requires
        pre.coherent(),
        !pre.overflow,
        operates(pre, post),
    ensures
        senders_woken(pre, post),
        pre.receivers.len() == 0 ==> pre.receiver_activates().send_ops == pre.send_ops.push(
            Signal::Notify(1),
        ),
{
    if exists|pos: nat, steps: nat|
        pre.receivers.contains(pos) && #[trigger] left(pre, pos, steps, post) {
        let (pos, steps) = choose|pos: nat, steps: nat|
            pre.receivers.contains(pos) && #[trigger] left(pre, pos, steps, post);
        lemma_left_wakes_sender(pre, pos, steps, post);
    } else if exists|pos: nat, steps: nat|
        pre.receivers.contains(pos) && #[trigger] left(pre.inactive_joins(), pos, steps, post) {
        let (pos, steps) = choose|pos: nat, steps: nat|
            pre.receivers.contains(pos) && #[trigger] left(pre.inactive_joins(), pos, steps, post);
        lemma_left_wakes_sender(pre.inactive_joins(), pos, steps, post);
    } else if post.send_ops != pre.send_ops {
        assert(post.send_ops[pre.send_ops.len() as int] == post.send_ops.last());
    }
}

proof fn lemma_left_wakes_sender<T, L: CapacityLimiter<T>>(
    pre: Channel<T, L>,
    pos: nat,
    steps: nat,
    post: Channel<T, L>,
)
    requires
        !pre.overflow,
        left(pre, pos, steps, post),
    ensures
        senders_woken(pre, post),
    decreases steps,
{
    if steps > 0 {
        let mid = choose|mid: Channel<T, L>|
            #[trigger] received(pre, pos, mid) && left(
                mid,
                pre.next(pos),
                (steps - 1) as nat,
                post,
            );
        lemma_left_wakes_sender(mid, pre.next(pos), (steps - 1) as nat, post);
        if mid.head > pre.head {
            let i = pre.send_ops.len() as int;
            assert(mid.send_ops[i] == Signal::Notify(1));
            assert(post.send_ops[i] == mid.send_ops[i]);
        }
    } else if post.closed && !pre.closed {
        assert(post.send_ops[pre.send_ops.len() as int] == Signal::Notify(usize::MAX));
    }
}

/// Nobody waits to send in vain over several operations either.
pub proof fn law_waking_senders_adds_up<T, L>(
    a: Channel<T, L>,
    b: Channel<T, L>,
    c: Channel<T, L>,
)
    requires
        senders_woken(a, b),
        senders_woken(b, c),
    ensures
        senders_woken(a, c),
{
    if b.head > a.head {
        let i = choose|i: int|
            a.send_ops.len() <= i < b.send_ops.len() && (#[trigger] b.send_ops[i] matches
                Signal::Notify(n) && n >= 1);
        assert(c.send_ops[i] == b.send_ops[i]);
    }
    if b.closed && !a.closed {
        let i = choose|i: int|
            a.send_ops.len() <= i < b.send_ops.len() && #[trigger] b.send_ops[i]
                == Signal::Notify(usize::MAX);
        assert(c.send_ops[i] == b.send_ops[i]);
    }
}

/// A channel that is limited by the number of its elements never holds more of them than its
/// capacity says, whatever is done to it.
pub proof fn law_capacity_never_exceeded<T>(
    pre: Channel<T, ElementCountLimiter>,
    post: Channel<T, ElementCountLimiter>,
)
    requires
        pre.coherent(),
        pre.queue().len() <= pre.limiter.0,
        operates(pre, post) || exists|new_cap: usize| post == #[trigger] pre.with_capacity(new_cap),
    ensures
        post.queue().len() <= post.limiter.0,
        operates(pre, post) ==> post.limiter == pre.limiter,
{
    if operates(pre, post) {
        if exists|msg: T, result: Result<Option<T>, TrySendError<T, FullError>>|
            broadcast_outcome(pre, msg, post, result) {
            let (msg, result) = choose|
                msg: T,
                result: Result<Option<T>, TrySendError<T, FullError>>,
            |
                broadcast_outcome(pre, msg, post, result);
            law_count_limit_settles_send(pre, msg, post, result);
        } else if exists|pos: nat, steps: nat|
            pre.receivers.contains(pos) && #[trigger] left(pre, pos, steps, post) {
            let (pos, steps) = choose|pos: nat, steps: nat|
                pre.receivers.contains(pos) && #[trigger] left(pre, pos, steps, post);
            lemma_left_keeps_count_limit(pre, pos, steps, post);
        } else if exists|pos: nat, steps: nat|
            pre.receivers.contains(pos) && #[trigger] left(
                pre.inactive_joins(),
                pos,
                steps,
                post,
            ) {
            let (pos, steps) = choose|pos: nat, steps: nat|
                pre.receivers.contains(pos) && #[trigger] left(
                    pre.inactive_joins(),
                    pos,
                    steps,
                    post,
                );
            lemma_left_keeps_count_limit(pre.inactive_joins(), pos, steps, post);
        }
    }
}

/// Nor does it at any time: in the whole life of a channel that was within its capacity once.
pub proof fn law_capacity_never_exceeded_at_any_time<T>(
    states: Seq<Channel<T, ElementCountLimiter>>,
    k: int,
)
    requires
        history(states),
        states[0].queue().len() <= states[0].limiter.0,
        forall|i: int, j: int|
            0 <= i && j == i + 1 && j < states.len() ==> operates(
                #[trigger] states[i],
                #[trigger] states[j],
            ) || exists|new_cap: usize| states[j] == #[trigger] states[i].with_capacity(new_cap),
        0 <= k < states.len(),
    ensures
        states[k].queue().len() <= states[k].limiter.0,
    decreases k,
{
    if k > 0 {
        law_capacity_never_exceeded_at_any_time(states, k - 1);
        law_history_stays_valid(states, k - 1, k - 1);
        law_capacity_never_exceeded(states[k - 1], states[k]);
    }
}

proof fn lemma_left_keeps_count_limit<T>(
    pre: Channel<T, ElementCountLimiter>,
    pos: nat,
    steps: nat,
    post: Channel<T, ElementCountLimiter>,
)
    requires
        pre.head <= pre.tail(),
        left(pre, pos, steps, post),
    ensures
        post.limiter == pre.limiter,
        post.sent == pre.sent,
        pre.head <= post.head <= post.tail(),
    decreases steps,
{
    if steps > 0 {
        let mid = choose|mid: Channel<T, ElementCountLimiter>|
            #[trigger] received(pre, pos, mid) && left(
                mid,
                pre.next(pos),
                (steps - 1) as nat,
                post,
            );
        lemma_left_keeps_count_limit(mid, pre.next(pos), (steps - 1) as nat, post);
    }
}

/// On an open channel with receivers that is limited by the number of its elements, the outcome of
/// a send is settled.
///
/// With room it succeeds. Without room and without overflow mode the message comes back and the
/// channel is unchanged. In overflow mode it succeeds all the same, at the cost of the oldest
/// messages, the last of which is handed back, unless the capacity is zero.
pub proof fn law_count_limit_settles_send<T>(
    pre: Channel<T, ElementCountLimiter>,
    msg: T,
    post: Channel<T, ElementCountLimiter>,
    result: Result<Option<T>, TrySendError<T, FullError>>,
)
    requires
        pre.coherent(),
        broadcast_outcome(pre, msg, post, result),
    ensures
        post.limiter == pre.limiter,
        !pre.closed && pre.receivers.len() > 0 ==> broadcast_done(
            pre,
            msg,
            count_evicted(pre.queue().len(), pre.limiter.0 as nat, pre.overflow),
            count_admission(pre.queue().len(), pre.limiter.0 as nat, pre.overflow),
            post,
            result,
        ),
        !pre.closed && pre.receivers.len() > 0 && pre.queue().len() < pre.limiter.0 ==> {
            &&& result == Ok::<Option<T>, TrySendError<T, FullError>>(None)
            &&& post.queue() == pre.queue().push(msg)
        },
        !pre.closed && pre.receivers.len() > 0 && 0 < pre.limiter.0 <= pre.queue().len()
            && !pre.overflow ==> {
            &&& result == Err::<Option<T>, TrySendError<T, FullError>>(
                TrySendError::Full { msg, error: FullError },
            )
            &&& post == pre
        },
        !pre.closed && pre.receivers.len() > 0 && 0 < pre.limiter.0 <= pre.sent.len() - pre.head
            && pre.overflow ==> {
            &&& result == Ok::<Option<T>, TrySendError<T, FullError>>(
                Some(pre.sent[pre.sent.len() - pre.limiter.0]),
            )
            &&& post.head == pre.sent.len() + 1 - pre.limiter.0
            &&& post.sent == pre.sent.push(msg)
        },
        !pre.closed && pre.receivers.len() > 0 && pre.limiter.0 == 0 ==> {
            &&& pre.head == pre.sent.len() || pre.overflow ==> result == Err::<
                Option<T>,
                TrySendError<T, FullError>,
            >(TrySendError::Rejected { msg, error: FullError })
            &&& pre.head < pre.sent.len() && !pre.overflow ==> result == Err::<
                Option<T>,
                TrySendError<T, FullError>,
            >(TrySendError::Full { msg, error: FullError })
            &&& post.sent == pre.sent
            &&& post.head == if pre.overflow {
                pre.sent.len()
            } else {
                pre.head
            }
        },
        !pre.closed && pre.receivers.len() > 0 && 0 < pre.limiter.0 == pre.queue().len()
            && pre.overflow ==> {
            &&& result == Ok::<Option<T>, TrySendError<T, FullError>>(Some(pre.queue()[0]))
            &&& post.queue() == pre.queue().skip(1).push(msg)
        },
{
    if !pre.closed && pre.receivers.len() > 0 {
        let (evicted, outcome) = choose|evicted: nat, outcome: Admission<FullError>|
            {
                &&& #[trigger] admits(
                    pre.limiter,
                    msg,
                    pre.queue(),
                    pre.overflow,
                    evicted,
                    post.limiter,
                    outcome,
                )
                &&& broadcast_done(pre, msg, evicted, outcome, post, result)
            };
        lemma_count_admits(
            pre.limiter,
            msg,
            pre.queue(),
            pre.overflow,
            evicted,
            post.limiter,
            outcome,
        );
        assert(pre.queue().len() < pre.limiter.0 ==> post.queue() =~= pre.queue().push(msg));
        assert(0 < pre.limiter.0 == pre.queue().len() && pre.overflow ==> post.queue()
            =~= pre.queue().skip(1).push(msg));
    }
}

/// A channel that shrinks keeps the newest messages, and one that grows keeps all of them.
pub proof fn law_shrinking_keeps_newest<T>(pre: Channel<T, ElementCountLimiter>, new_cap: usize)
    requires
        pre.coherent(),
    ensures
        pre.with_capacity(new_cap).limiter.0 == new_cap,
        pre.with_capacity(new_cap).queue() == if pre.queue().len() <= new_cap {
            pre.queue()
        } else {
            pre.queue().skip(pre.queue().len() - new_cap)
        },
{
    if pre.queue().len() > new_cap {
        assert(pre.with_capacity(new_cap).queue() =~= pre.queue().skip(
            pre.queue().len() - new_cap,
        ));
    }
}

/// Adjusting a limit on the number of elements is setting the capacity, and never fails.
pub proof fn law_count_limit_settles_adjustment<T>(
    pre: Channel<T, ElementCountLimiter>,
    new_cap: usize,
    post: Channel<T, ElementCountLimiter>,
    result: Result<(), FullError>,
)
    requires
        pre.coherent(),
        adjust_outcome(pre, new_cap, post, result),
    ensures
        post == pre.with_capacity(new_cap),
        result is Ok,
{
    let evicted = choose|evicted: nat|
        {
            &&& #[trigger] adjusts(
                pre.limiter,
                new_cap,
                pre.queue(),
                evicted,
                post.limiter,
                result,
            )
            &&& post == Channel { head: pre.head + evicted, limiter: post.limiter, ..pre }
        };
    lemma_count_adjusts(pre.limiter, new_cap, pre.queue(), evicted, post.limiter, result);
}

} // verus!
